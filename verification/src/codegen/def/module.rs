use super::fun::{FunctionDef, FunctionDefModel};
use crate::api::module::Module;
use crate::util::text::same_text;
use crate::util::uid::UIDGenerator;
use vstd::prelude::*;

verus! {

/// A declared module: its names, its functions and the modules inside it.
/// No two functions and no two modules of it have the same name.
#[derive(Debug)]
pub struct ModuleDef {
    pub name: String,
    pub canon_name: String,
    pub functions: Vec<FunctionDef>,
    pub modules: Vec<ModuleDef>,
}

/// The model of a [`ModuleDef`].
pub struct ModuleDefModel {
    pub name: Seq<char>,
    pub canon_name: Seq<char>,
    pub functions: Seq<FunctionDefModel>,
    pub modules: Seq<ModuleDefModel>,
}

/// The models of a list of function definitions, in order.
pub open spec fn function_defs_model(functions: &Vec<FunctionDef>) -> Seq<FunctionDefModel> {
    Seq::new(functions.len() as nat, |i: int| functions[i]@)
}

/// The models of a list of module definitions, in order.
pub open spec fn module_defs_model(modules: &Vec<ModuleDef>) -> Seq<ModuleDefModel>
    decreases modules,
{
    Seq::new(
        modules.len() as nat,
        |i: int|
            if 0 <= i < modules.len() {
                modules[i].model()
            } else {
                arbitrary()
            },
    )
}

/// The place of the first function named `name` from `from` on, or the
/// number of functions when there is none.
pub open spec fn def_place(functions: Seq<FunctionDefModel>, name: Seq<char>, from: int) -> int
    decreases functions.len() - from,
{
    if 0 <= from < functions.len() {
        if functions[from].name == name {
            from
        } else {
            def_place(functions, name, from + 1)
        }
    } else {
        functions.len() as int
    }
}

/// The place of the first module named `name` from `from` on, or the number
/// of modules when there is none.
pub open spec fn module_place(modules: Seq<ModuleDefModel>, name: Seq<char>, from: int) -> int
    decreases modules.len() - from,
{
    if 0 <= from < modules.len() {
        if modules[from].name == name {
            from
        } else {
            module_place(modules, name, from + 1)
        }
    } else {
        modules.len() as int
    }
}

/// The functions after `def` is added: it takes the place of the function
/// of its name, or stands behind the others.
pub open spec fn with_def(functions: Seq<FunctionDefModel>, def: FunctionDefModel) -> Seq<
    FunctionDefModel,
> {
    let place = def_place(functions, def.name, 0);
    if place < functions.len() {
        functions.update(place, def)
    } else {
        functions.push(def)
    }
}

/// The modules after `module` is added: it takes the place of the module of
/// its name, or stands behind the others.
pub open spec fn with_module(modules: Seq<ModuleDefModel>, module: ModuleDefModel) -> Seq<
    ModuleDefModel,
> {
    let place = module_place(modules, module.name, 0);
    if place < modules.len() {
        modules.update(place, module)
    } else {
        modules.push(module)
    }
}

/// No two functions have the same name.
pub open spec fn distinct_defs(functions: Seq<FunctionDefModel>) -> bool {
    forall|i: int, j: int|
        0 <= i < j < functions.len() ==> (#[trigger] functions[i]).name != (
        #[trigger] functions[j]).name
}

/// No two modules have the same name.
pub open spec fn distinct_modules(modules: Seq<ModuleDefModel>) -> bool {
    forall|i: int, j: int|
        0 <= i < j < modules.len() ==> (#[trigger] modules[i]).name != (#[trigger] modules[j]).name
}

/// The first function of a name stands at its place, and no function before
/// it has the name.
pub proof fn lemma_def_place(functions: Seq<FunctionDefModel>, name: Seq<char>, from: int)
    requires
        0 <= from <= functions.len(),
    ensures
        from <= def_place(functions, name, from) <= functions.len(),
        def_place(functions, name, from) < functions.len() ==> functions[def_place(
            functions,
            name,
            from,
        )].name == name,
        forall|i: int|
            from <= i < def_place(functions, name, from) ==> (#[trigger] functions[i]).name != name,
    decreases functions.len() - from,
{
    if from < functions.len() && functions[from].name != name {
        lemma_def_place(functions, name, from + 1);
    }
}

/// The first module of a name stands at its place, and no module before it
/// has the name.
pub proof fn lemma_module_place(modules: Seq<ModuleDefModel>, name: Seq<char>, from: int)
    requires
        0 <= from <= modules.len(),
    ensures
        from <= module_place(modules, name, from) <= modules.len(),
        module_place(modules, name, from) < modules.len() ==> modules[module_place(
            modules,
            name,
            from,
        )].name == name,
        forall|i: int|
            from <= i < module_place(modules, name, from) ==> (#[trigger] modules[i]).name != name,
    decreases modules.len() - from,
{
    if from < modules.len() && modules[from].name != name {
        lemma_module_place(modules, name, from + 1);
    }
}

/// A module in which no name occurs twice.
pub open spec fn well_formed(module: ModuleDefModel) -> bool {
    distinct_defs(module.functions) && distinct_modules(module.modules)
}

impl View for ModuleDef {
    type V = ModuleDefModel;

    open spec fn view(&self) -> ModuleDefModel {
        self.model()
    }
}

impl ModuleDef {
    /// The model of this module.
    pub open spec fn model(&self) -> ModuleDefModel
        decreases self,
    {
        ModuleDefModel {
            name: self.name@,
            canon_name: self.canon_name@,
            functions: function_defs_model(&self.functions),
            modules: module_defs_model(&self.modules),
        }
    }

    /// No name occurs twice among the functions or among the modules.
    pub open spec fn wf(&self) -> bool {
        well_formed(self@)
    }

    /// An empty module named `name` under the path `mod_path`.
    pub fn new(mod_path: &str, name: &str) -> (module: ModuleDef)
        ensures
            module.wf(),
            module@ == (ModuleDefModel {
                name: name@,
                canon_name: mod_path@ + name@,
                functions: Seq::empty(),
                modules: Seq::empty(),
            }),
    {
        let module = ModuleDef {
            canon_name: String::from_str(mod_path).concat(name),
            name: String::from_str(name),
            functions: Vec::new(),
            modules: Vec::new(),
        };
        assert(module@.functions =~= Seq::empty());
        assert(module@.modules =~= Seq::empty());
        module
    }

    /// Adds a module under its name; a module of that name is replaced.
    #[verifier::loop_isolation(false)]
    pub fn add_module(&mut self, module_def: ModuleDef)
        requires
            old(self).wf(),
        ensures
            final(self).wf(),
            final(self)@ == (ModuleDefModel {
                modules: with_module(old(self)@.modules, module_def@),
                ..old(self)@
            }),
    {
        let ghost before = self@.modules;
        let mut place: usize = 0;
        while place < self.modules.len() && !same_text(
            self.modules[place].name.as_str(),
            module_def.name.as_str(),
        )
            invariant
                place <= self.modules.len(),
                self@ == old(self)@,
                module_place(before, module_def@.name, place as int) == module_place(
                    before,
                    module_def@.name,
                    0,
                ),
            decreases self.modules.len() - place,
        {
            assert(self@.modules[place as int] == self.modules[place as int].model());
            assert(self.modules[place as int].model().name == self.modules[place as int].name@);
            place += 1;
        }
        assert(place < self.modules.len() ==> self@.modules[place as int]
            == self.modules[place as int].model() && self.modules[place as int].model().name
            == self.modules[place as int].name@);
        proof {
            lemma_module_place(before, module_def@.name, 0);
        }
        let ghost added = module_def@;
        if place < self.modules.len() {
            self.modules.set(place, module_def);
            assert(self@.modules =~= before.update(place as int, added));
        } else {
            self.modules.push(module_def);
            assert(self@.modules =~= before.push(added));
        }
    }

    /// Adds a function under its name; a function of that name is replaced.
    #[verifier::loop_isolation(false)]
    pub fn add_function(&mut self, fn_def: FunctionDef)
        requires
            old(self).wf(),
        ensures
            final(self).wf(),
            final(self)@ == (ModuleDefModel {
                functions: with_def(old(self)@.functions, fn_def@),
                ..old(self)@
            }),
    {
        let ghost before = self@.functions;
        let mut place: usize = 0;
        while place < self.functions.len() && !same_text(
            self.functions[place].name.as_str(),
            fn_def.name.as_str(),
        )
            invariant
                place <= self.functions.len(),
                self@ == old(self)@,
                def_place(before, fn_def@.name, place as int) == def_place(
                    before,
                    fn_def@.name,
                    0,
                ),
            decreases self.functions.len() - place,
        {
            place += 1;
        }
        proof {
            lemma_def_place(before, fn_def@.name, 0);
        }
        let ghost added = fn_def@;
        if place < self.functions.len() {
            self.functions.set(place, fn_def);
            assert(self@.functions =~= before.update(place as int, added));
        } else {
            self.functions.push(fn_def);
            assert(self@.functions =~= before.push(added));
        }
    }

    /// The place of the function named `fn_name`, or the number of
    /// functions.
    #[verifier::loop_isolation(false)]
    fn function_index(&self, fn_name: &str) -> (place: usize)
        ensures
            place == def_place(self@.functions, fn_name@, 0),
            place <= self.functions.len(),
    {
        let mut place: usize = 0;
        while place < self.functions.len() && !same_text(
            self.functions[place].name.as_str(),
            fn_name,
        )
            invariant
                place <= self.functions.len(),
                def_place(self@.functions, fn_name@, place as int) == def_place(
                    self@.functions,
                    fn_name@,
                    0,
                ),
            decreases self.functions.len() - place,
        {
            place += 1;
        }
        place
    }

    /// The place of the module named `mod_name`, or the number of modules.
    #[verifier::loop_isolation(false)]
    fn module_index(&self, mod_name: &str) -> (place: usize)
        ensures
            place == module_place(self@.modules, mod_name@, 0),
            place <= self.modules.len(),
    {
        let mut place: usize = 0;
        while place < self.modules.len() && !same_text(self.modules[place].name.as_str(), mod_name)
            invariant
                place <= self.modules.len(),
                module_place(self@.modules, mod_name@, place as int) == module_place(
                    self@.modules,
                    mod_name@,
                    0,
                ),
            decreases self.modules.len() - place,
        {
            assert(self@.modules[place as int] == self.modules[place as int].model());
            assert(self.modules[place as int].model().name == self.modules[place as int].name@);
            place += 1;
        }
        assert(place < self.modules.len() ==> self@.modules[place as int]
            == self.modules[place as int].model() && self.modules[place as int].model().name
            == self.modules[place as int].name@);
        place
    }

    /// Whether the module has a function named `fn_name`.
    pub fn has_function(&self, fn_name: &str) -> (has: bool)
        ensures
            has == (def_place(self@.functions, fn_name@, 0) < self@.functions.len()),
    {
        self.function_index(fn_name) < self.functions.len()
    }

    /// Whether the module has a module named `mod_name`.
    pub fn has_module(&self, mod_name: &str) -> (has: bool)
        ensures
            has == (module_place(self@.modules, mod_name@, 0) < self@.modules.len()),
    {
        self.module_index(mod_name) < self.modules.len()
    }

    /// The function named `fn_name`.
    pub fn get_function(&self, fn_name: &str) -> (function: Result<&FunctionDef, ()>)
        ensures
            function is Ok <==> def_place(self@.functions, fn_name@, 0) < self@.functions.len(),
            function matches Ok(found) ==> found@ == self@.functions[def_place(
                self@.functions,
                fn_name@,
                0,
            )],
    {
        let place = self.function_index(fn_name);
        if place < self.functions.len() {
            Ok(&self.functions[place])
        } else {
            Err(())
        }
    }

    /// The label and the canonical name of each function, in the order in
    /// which the names were first added.
    pub fn get_function_list(&self) -> (list: Result<Vec<(u64, String)>, ()>)
        ensures
            list matches Ok(labels) && labels.len() == self@.functions.len() && forall|i: int|
                0 <= i < labels.len() ==> (#[trigger] labels[i]).0 == self@.functions[i].label_uid
                    && labels[i].1@ == self@.functions[i].canon_name,
    {
        let mut labels: Vec<(u64, String)> = Vec::new();
        let mut i: usize = 0;
        while i < self.functions.len()
            invariant
                i <= self.functions.len(),
                labels.len() == i,
                forall|j: int|
                    0 <= j < i ==> (#[trigger] labels[j]).0 == self@.functions[j].label_uid
                        && labels[j].1@ == self@.functions[j].canon_name,
            decreases self.functions.len() - i,
        {
            labels.push((self.functions[i].label_uid, self.functions[i].canon_name.clone()));
            i += 1;
        }
        Ok(labels)
    }

    /// The module named `mod_name`.
    pub fn get_module(&self, mod_name: &str) -> (module: Result<&ModuleDef, ()>)
        ensures
            module is Ok <==> module_place(self@.modules, mod_name@, 0) < self@.modules.len(),
            module matches Ok(found) ==> found@ == self@.modules[module_place(
                self@.modules,
                mod_name@,
                0,
            )],
    {
        let place = self.module_index(mod_name);
        if place < self.modules.len() {
            Ok(&self.modules[place])
        } else {
            Err(())
        }
    }

    /// A copy of this module with all that is inside it.
    pub fn duplicate(&self) -> (copy: ModuleDef)
        ensures
            copy@ == self@,
        decreases self,
    {
        let mut functions: Vec<FunctionDef> = Vec::new();
        let mut i: usize = 0;
        while i < self.functions.len()
            invariant
                i <= self.functions.len(),
                functions.len() == i,
                forall|j: int| 0 <= j < i ==> functions[j]@ == self.functions[j]@,
            decreases self.functions.len() - i,
        {
            functions.push(self.functions[i].duplicate());
            i += 1;
        }
        let mut modules: Vec<ModuleDef> = Vec::new();
        let mut k: usize = 0;
        while k < self.modules.len()
            invariant
                k <= self.modules.len(),
                modules.len() == k,
                forall|j: int| 0 <= j < k ==> modules[j]@ == self.modules[j]@,
            decreases self.modules.len() - k,
        {
            let copy = self.modules[k].duplicate();
            modules.push(copy);
            k += 1;
        }
        assert(function_defs_model(&functions) =~= function_defs_model(&self.functions));
        assert(module_defs_model(&modules) =~= module_defs_model(&self.modules));
        ModuleDef {
            name: self.name.clone(),
            canon_name: self.canon_name.clone(),
            functions,
            modules,
        }
    }

    /// The definition of a module of native functions under the path
    /// `mod_path`. Each function gets a label that was not handed out
    /// before.
    #[verifier::loop_isolation(false)]
    pub fn from_api(uid_gen: &mut UIDGenerator, mod_path: &str, api_mod: Module) -> (module:
        ModuleDef)
        requires
            old(uid_gen).wf(),
        ensures
            final(uid_gen).wf(),
            old(uid_gen).used().subset_of(final(uid_gen).used()),
            module@.name == api_mod.name@,
            module@.canon_name == mod_path@ + api_mod.name@,
            module@.modules == Seq::<ModuleDefModel>::empty(),
            module@.functions.len() == api_mod.functions().len(),
            forall|i: int|
                0 <= i < module@.functions.len() ==> {
                    let def = #[trigger] module@.functions[i];
                    let function = api_mod.functions()[i];
                    &&& def.name == function.name
                    &&& def.canon_name == mod_path@ + function.name
                    &&& def.returns == super::fun::converted(function.returns)
                    &&& def.arguments == super::fun::converted_arguments(function.args)
                    &&& !old(uid_gen).used().contains(def.label_uid)
                    &&& final(uid_gen).used().contains(def.label_uid)
                },
            forall|i: int, j: int|
                0 <= i < j < module@.functions.len() ==> (#[trigger] module@.functions[i]).label_uid
                    != (#[trigger] module@.functions[j]).label_uid,
    {
        let mut fn_defs: Vec<FunctionDef> = Vec::new();
        let mut i: usize = 0;
        while i < api_mod.functions.len()
            invariant
                i <= api_mod.functions.len(),
                uid_gen.wf(),
                old(uid_gen).used().subset_of(uid_gen.used()),
                fn_defs.len() == i,
                forall|j: int|
                    0 <= j < i ==> {
                        let def = #[trigger] fn_defs[j]@;
                        let function = api_mod.functions()[j];
                        &&& def.name == function.name
                        &&& def.canon_name == mod_path@ + function.name
                        &&& def.returns == super::fun::converted(function.returns)
                        &&& def.arguments == super::fun::converted_arguments(function.args)
                        &&& !old(uid_gen).used().contains(def.label_uid)
                        &&& uid_gen.used().contains(def.label_uid)
                    },
                forall|a: int, b: int|
                    0 <= a < b < i ==> (#[trigger] fn_defs[a]@).label_uid != (
                    #[trigger] fn_defs[b]@).label_uid,
            decreases api_mod.functions.len() - i,
        {
            let fn_uid = uid_gen.generate();
            let fn_def = FunctionDef::from_api(fn_uid, mod_path, api_mod.functions[i].duplicate());
            fn_defs.push(fn_def);
            i += 1;
        }
        let module = ModuleDef {
            name: api_mod.name.clone(),
            canon_name: String::from_str(mod_path).concat(api_mod.name.as_str()),
            functions: fn_defs,
            modules: Vec::new(),
        };
        assert(module@.modules =~= Seq::empty());
        module
    }
}

impl Clone for ModuleDef {
    fn clone(&self) -> (copy: Self)
        ensures
            copy@ == self@,
    {
        self.duplicate()
    }
}

} // verus!
