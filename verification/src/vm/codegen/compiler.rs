//! The code generator of the virtual machine.

use super::assembler::{
    code_offset, flattened, label_place, with_label, Assembler, AssemblerModel,
};
use super::error::{Error, ErrorModel};
use super::instruction::{
    on_immediate, on_registers, plain, release, reserve, Instruction, InstructionModel,
};
use super::lowering::{
    arithmetic_code, descended, path_parts, resolved, separator_place, arguments_code, arguments_size, passed,
    Passing, bound_arguments, copied, declaration_code, displacement, entry_frame, expression_code,
    fits_i16, fits_i32, given_back, frame_of, function_code, held, held_below, is_arithmetic, load,
    nesting, piece, program_code, combined, shifted, size_of, statement_code, statements_code,
    store, type_of, value_code, with_frame, Frame, FunctionCode, Lowered, Program, Returning,
};
use super::output::{names_model, Output};
use super::register::Register;
use crate::codegen::ctx::{
    has_variable, highest, lemma_highest, variable_of, well_formed, with_variable, FnContext,
    StackContext, StackModel,
};
use crate::codegen::decl::{declared_from, path_of, Declarator, Declared};
use crate::codegen::def::cont::ContDef;
use crate::codegen::def::fun::{FunctionDef, FunctionDefModel};
use crate::codegen::def::module::{module_defs_model, ModuleDef, ModuleDefModel};
use crate::parser::ast::{
    declarations_model, statements_model, Declaration, DeclarationModel, Expression,
    ExpressionModel, Operator, Statement, StatementModel, Type, TypeModel,
};
use crate::util::uid::UIDGenerator;
use crate::vm::exec::is::Opcode;
use vstd::prelude::*;

verus! {

/// The code generator of the virtual machine.
pub struct Compiler {
    mod_def_stack: Vec<ModuleDef>,
    stack_ctx_stack: Vec<StackContext>,
    fn_ctx_stack: Vec<FnContext>,
    uid_gen: UIDGenerator,
    assembler: Assembler,
    declarator: Declarator,
}

/// The assembler with `code` behind its instructions.
pub open spec fn appended(assembly: AssemblerModel, code: Seq<InstructionModel>) -> AssemblerModel {
    AssemblerModel { instructions: assembly.instructions + code, ..assembly }
}

/// The function whose `return` is compiled: the return type of the
/// innermost function and the bytes that the stacks below the one on top
/// hold down to the stack of that function.
pub open spec fn returning_of(stacks: Seq<StackModel>, functions: Seq<(TypeModel, u64)>) -> Option<
    Returning,
> {
    if functions.len() == 0 {
        None
    } else {
        Some(
            Returning {
                ret_type: functions.last().0,
                below: held_below(stacks, functions.last().1),
            },
        )
    }
}

/// The labels and the offsets in the bytecode of the functions from `from`
/// on whose canonical name is a label.
pub open spec fn entry_points(
    functions: Seq<FunctionDefModel>,
    assembly: AssemblerModel,
    from: int,
) -> Seq<(u64, usize)>
    decreases functions.len() - from,
{
    if 0 <= from < functions.len() {
        let place = label_place(assembly.labels, functions[from].canon_name, 0);
        if place < assembly.labels.len() {
            seq![
                (
                    functions[from].label_uid,
                    code_offset(assembly.instructions, assembly.labels[place].1 as int) as usize,
                ),
            ] + entry_points(functions, assembly, from + 1)
        } else {
            entry_points(functions, assembly, from + 1)
        }
    } else {
        Seq::empty()
    }
}

/// The canonical names and the labels of functions, in order.
pub open spec fn function_names(functions: Seq<FunctionDefModel>) -> Seq<(Seq<char>, u64)> {
    Seq::new(functions.len(), |i: int| (functions[i].canon_name, functions[i].label_uid))
}

impl Compiler {
    /// The modules that are being compiled, the outermost first.
    pub closed spec fn modules(&self) -> Seq<ModuleDefModel> {
        module_defs_model(&self.mod_def_stack)
    }

    /// The stacks of the functions and blocks that are being compiled, the
    /// innermost last.
    pub closed spec fn stacks(&self) -> Seq<StackModel> {
        Seq::new(self.stack_ctx_stack.len() as nat, |i: int| self.stack_ctx_stack[i]@)
    }

    /// The return type and the stack of each function that is being
    /// compiled, the innermost last.
    pub closed spec fn functions(&self) -> Seq<(TypeModel, u64)> {
        Seq::new(
            self.fn_ctx_stack.len() as nat,
            |i: int| (self.fn_ctx_stack[i].ret_type@, self.fn_ctx_stack[i].stack_ctx_uid),
        )
    }

    /// The assembler of this compilation.
    pub closed spec fn assembly(&self) -> AssemblerModel {
        self.assembler@
    }

    /// What the declaration pass of this compilation has built.
    pub closed spec fn declared(&self) -> Declared {
        self.declarator.state()
    }

    /// The identities that were given to stacks.
    pub closed spec fn used(&self) -> Set<u64> {
        self.uid_gen.used()
    }

    /// Every part of the compiler is well formed.
    pub closed spec fn wf(&self) -> bool {
        &&& self.uid_gen.wf()
        &&& self.assembler.wf()
        &&& self.declarator.wf()
        &&& forall|i: int| 0 <= i < self.stacks().len() ==> well_formed(#[trigger] self.stacks()[i])
    }

    /// The frame of the stack on top.
    pub open spec fn frame(&self) -> Frame {
        frame_of(self.stacks().last())
    }

    /// The variables of the stack on top; none without a stack.
    pub open spec fn variables(&self) -> Seq<(Seq<char>, (i32, TypeModel))> {
        if self.stacks().len() > 0 {
            self.frame().variables
        } else {
            Seq::empty()
        }
    }

    /// The function whose `return` is compiled.
    pub open spec fn returning(&self) -> Option<Returning> {
        returning_of(self.stacks(), self.functions())
    }

    /// Nothing but the assembler and the stacks differs between the two
    /// compilers.
    pub open spec fn kept(&self, before: &Compiler) -> bool {
        &&& self.modules() == before.modules()
        &&& self.functions() == before.functions()
        &&& self.declared() == before.declared()
        &&& self.used() == before.used()
    }

    /// This compiler is `before` after the instructions of `lowered` were
    /// emitted and the stack on top took the frame of `lowered`.
    pub open spec fn advanced_by(&self, before: &Compiler, lowered: Lowered) -> bool {
        &&& self.kept(before)
        &&& self.assembly() == appended(before.assembly(), lowered.code)
        &&& before.stacks().len() > 0
        &&& self.stacks() == before.stacks().drop_last().push(
            with_frame(before.stacks().last(), lowered.frame),
        )
    }

    /// What the code of a construct asks of the compiler after the construct
    /// was compiled, and of the result.
    pub open spec fn emitted(
        &self,
        before: &Compiler,
        result: Result<(), Error>,
        expected: Result<Lowered, ErrorModel>,
    ) -> bool {
        match expected {
            Ok(lowered) => result is Ok && self.advanced_by(before, lowered),
            Err(error) => result matches Err(found) && found@ == error,
        }
    }

    /// What is asked of the compiler after a construct was compiled that
    /// needs a stack: without a stack the result is an error.
    pub open spec fn lowered(
        &self,
        before: &Compiler,
        result: Result<(), Error>,
        expected: Result<Lowered, ErrorModel>,
    ) -> bool {
        if before.stacks().len() == 0 {
            result matches Err(found) && found@ == ErrorModel::Unknown
        } else {
            self.emitted(before, result, expected)
        }
    }

    /// A compiler with an empty assembler that declares into a module named
    /// `root`.
    pub fn new() -> (compiler: Compiler)
        ensures
            compiler.wf(),
            compiler.modules() == Seq::<ModuleDefModel>::empty(),
            compiler.stacks() == Seq::<StackModel>::empty(),
            compiler.functions() == Seq::<(TypeModel, u64)>::empty(),
            compiler.assembly() == (AssemblerModel {
                instructions: Seq::empty(),
                labels: Seq::empty(),
                tags: Seq::empty(),
            }),
            compiler.used() == Set::<u64>::empty(),
            compiler.declared().next_label == 0,
            compiler.declared().stack == seq![
                ModuleDefModel {
                    name: "root"@,
                    canon_name: "root"@,
                    functions: Seq::empty(),
                    modules: Seq::empty(),
                },
            ],
    {
        let compiler = Compiler {
            mod_def_stack: Vec::new(),
            uid_gen: UIDGenerator::new(),
            stack_ctx_stack: Vec::new(),
            fn_ctx_stack: Vec::new(),
            assembler: Assembler::new(),
            declarator: Declarator::default(),
        };
        assert(compiler.modules() =~= Seq::empty());
        assert(compiler.stacks() =~= Seq::empty());
        assert(compiler.functions() =~= Seq::empty());
        compiler
    }

    /// Begins a function with the return type `ret_type`: an empty stack with
    /// a fresh identity is put on top of the stacks.
    pub fn enter_function(&mut self, ret_type: Type) -> (uid: u64)
        requires
            old(self).wf(),
        ensures
            final(self).wf(),
            !old(self).used().contains(uid),
            final(self).used() == old(self).used().insert(uid),
            final(self).stacks() == old(self).stacks().push(
                with_frame(
                    StackModel {
                        uid,
                        stack_pos: 0,
                        stack_extent: 0,
                        variables: Seq::empty(),
                        observed: Seq::empty(),
                    },
                    entry_frame(Seq::empty()),
                ),
            ),
            final(self).functions() == old(self).functions().push((ret_type@, uid)),
            final(self).modules() == old(self).modules(),
            final(self).declared() == old(self).declared(),
            final(self).assembly() == old(self).assembly(),
    {
        let uid = self.get_next_uid();
        let stack_ctx = StackContext::new(uid);
        let ghost entry = stack_ctx@;
        let ghost stacks = self.stacks();
        let ghost functions = self.functions();
        self.stack_ctx_stack.push(stack_ctx);
        self.fn_ctx_stack.push(FnContext::new(ret_type, uid));
        assert(self.stacks() =~= stacks.push(entry));
        assert(self.functions() =~= functions.push((ret_type@, uid)));
        uid
    }

    /// Ends the innermost function: its stack is taken from the stacks and
    /// handed out. Nothing when no function was begun.
    pub fn leave_function(&mut self) -> (stack: Option<StackContext>)
        requires
            old(self).wf(),
        ensures
            final(self).wf(),
            final(self).modules() == old(self).modules(),
            final(self).declared() == old(self).declared(),
            final(self).assembly() == old(self).assembly(),
            final(self).used() == old(self).used(),
            match stack {
                Some(stack) => old(self).stacks().len() > 0 && stack@ == old(self).stacks().last()
                    && stack.wf() && final(self).stacks() == old(self).stacks().drop_last(),
                None => old(self).stacks().len() == 0 && final(self).stacks() == old(
                    self,
                ).stacks(),
            },
            final(self).functions() == if old(self).functions().len() > 0 {
                old(self).functions().drop_last()
            } else {
                old(self).functions()
            },
    {
        let ghost stacks = self.stacks();
        let ghost functions = self.functions();
        let depth = self.stack_ctx_stack.len();
        if depth > 0 {
            assert(stacks[depth - 1] == self.stack_ctx_stack[depth - 1]@);
        }
        self.fn_ctx_stack.pop();
        let stack = self.stack_ctx_stack.pop();
        assert(self.stacks() =~= if stacks.len() > 0 {
            stacks.drop_last()
        } else {
            stacks
        });
        assert(self.functions() =~= if functions.len() > 0 {
            functions.drop_last()
        } else {
            functions
        });
        stack
    }

    /// Makes `module_def` the only module that is being compiled.
    pub fn set_root_module(&mut self, module_def: ModuleDef)
        requires
            old(self).wf(),
        ensures
            final(self).wf(),
            final(self).modules() == seq![module_def@],
            final(self).stacks() == old(self).stacks(),
            final(self).functions() == old(self).functions(),
            final(self).assembly() == old(self).assembly(),
            final(self).declared() == old(self).declared(),
            final(self).used() == old(self).used(),
    {
        self.mod_def_stack.clear();
        self.mod_def_stack.push(module_def);
        assert(self.modules() =~= seq![module_def@]);
        assert(self.stacks() =~= old(self).stacks());
        assert(self.functions() =~= old(self).functions());
    }

    #[verifier::loop_isolation(false)]
    fn get_module_path(&self) -> (path: Result<String, Error>)
        ensures
            match path {
                Ok(path) => path@ == path_of(self.modules()) && path@.len() > 0,
                Err(error) => path_of(self.modules()).len() == 0 && error@ == ErrorModel::Unknown,
            },
    {
        let mut path = String::new();
        let mut i: usize = 0;
        while i < self.mod_def_stack.len()
            invariant
                i <= self.mod_def_stack.len(),
                path@ == path_of(self.modules().take(i as int)),
            decreases self.mod_def_stack.len() - i,
        {
            assert(self.modules().take(i + 1).drop_last() =~= self.modules().take(i as int));
            assert(self.modules()[i as int] == self.mod_def_stack[i as int].model());
            assert(self.mod_def_stack[i as int].model().name == self.mod_def_stack[i as int].name@);
            path.append(self.mod_def_stack[i].name.as_str());
            path.append("::");
            i += 1;
        }
        assert(self.modules().take(i as int) =~= self.modules());
        if path.as_str().unicode_len() == 0 {
            return Err(Error::Unknown);
        }
        Ok(path)
    }

    fn get_stack_pos(&self) -> (pos: Result<i32, Error>)
        ensures
            match pos {
                Ok(pos) => self.stacks().len() > 0 && pos == self.frame().stack_pos,
                Err(error) => self.stacks().len() == 0 && error@ == ErrorModel::Unknown,
            },
    {
        let depth = self.stack_ctx_stack.len();
        if depth == 0 {
            return Err(Error::Unknown);
        }
        assert(self.stacks()[depth - 1] == self.stack_ctx_stack[depth - 1]@);
        Ok(self.stack_ctx_stack[depth - 1].stack_pos)
    }

    /// Moves the top of the stack on top to `stack_pos`.
    fn move_stack(&mut self, stack_pos: i32)
        requires
            old(self).wf(),
            old(self).stacks().len() > 0,
        ensures
            final(self).wf(),
            final(self).advanced_by(
                old(self),
                Lowered { code: Seq::empty(), frame: shifted(old(self).frame(), stack_pos as int) },
            ),
    {
        let ghost before = self.stacks();
        let depth = self.stack_ctx_stack.len();
        assert(before[depth - 1] == self.stack_ctx_stack[depth - 1]@);
        let mut stack_ctx = match self.stack_ctx_stack.pop() {
            Some(stack_ctx) => stack_ctx,
            None => StackContext::new(0),
        };
        stack_ctx.move_to(stack_pos);
        let ghost after = stack_ctx@;
        self.stack_ctx_stack.push(stack_ctx);
        assert(self.stacks() =~= before.drop_last().push(after));
        assert(self.assembly() == appended(old(self).assembly(), Seq::empty())) by {
            assert(old(self).assembly().instructions + Seq::<InstructionModel>::empty()
                =~= old(self).assembly().instructions);
        }
        assert(self.functions() =~= old(self).functions());
    }

    fn inc_stack(&mut self, inc: isize) -> (result: Result<(), Error>)
        requires
            old(self).wf(),
        ensures
            final(self).wf(),
            final(self).lowered(
                old(self),
                result,
                if fits_i32(old(self).frame().stack_pos + inc) {
                    Ok(
                        Lowered {
                            code: Seq::empty(),
                            frame: shifted(old(self).frame(), old(self).frame().stack_pos + inc),
                        },
                    )
                } else {
                    Err(ErrorModel::Unknown)
                },
            ),
    {
        let pos = self.get_stack_pos()?;
        let target = pos as i128 + inc as i128;
        if target < i32::MIN as i128 || target > i32::MAX as i128 {
            return Err(Error::Unknown);
        }
        self.move_stack(target as i32);
        Ok(())
    }

    fn dec_stack(&mut self, dec: isize) -> (result: Result<(), Error>)
        requires
            old(self).wf(),
        ensures
            final(self).wf(),
            final(self).lowered(
                old(self),
                result,
                if fits_i32(old(self).frame().stack_pos - dec) {
                    Ok(
                        Lowered {
                            code: Seq::empty(),
                            frame: shifted(old(self).frame(), old(self).frame().stack_pos - dec),
                        },
                    )
                } else {
                    Err(ErrorModel::Unknown)
                },
            ),
    {
        let pos = self.get_stack_pos()?;
        let target = pos as i128 - dec as i128;
        if target < i32::MIN as i128 || target > i32::MAX as i128 {
            return Err(Error::Unknown);
        }
        self.move_stack(target as i32);
        Ok(())
    }

    /// Puts an instruction at the end of the code.
    fn emit(&mut self, instruction: Instruction)
        requires
            old(self).wf(),
        ensures
            final(self).wf(),
            final(self).kept(old(self)),
            final(self).stacks() == old(self).stacks(),
            final(self).assembly() == appended(old(self).assembly(), seq![instruction@]),
    {
        let ghost before = self.assembly().instructions;
        self.assembler.push_instr(instruction);
        assert(before.push(instruction@) =~= before + seq![instruction@]);
        assert(self.stacks() =~= old(self).stacks());
        assert(self.functions() =~= old(self).functions());
    }

    /// The offset and the type of the variable `name` in the stack on top.
    fn get_var(&self, name: &str) -> (variable: Result<(i32, Type), Error>)
        ensures
            match variable {
                Ok(found) => self.stacks().len() > 0 && has_variable(self.frame().variables, name@)
                    && (found.0, found.1@) == variable_of(self.frame().variables, name@),
                Err(error) => error@ == ErrorModel::Unknown && (self.stacks().len() == 0
                    || !has_variable(self.frame().variables, name@)),
            },
    {
        let depth = self.stack_ctx_stack.len();
        if depth == 0 {
            return Err(Error::Unknown);
        }
        assert(self.stacks()[depth - 1] == self.stack_ctx_stack[depth - 1]@);
        match self.stack_ctx_stack[depth - 1].find_var(name) {
            Some(variable) => Ok((variable.0, variable.1.duplicate())),
            None => Err(Error::Unknown),
        }
    }

    fn get_var_position(&self, name: &str) -> (position: Result<i32, Error>)
        ensures
            match position {
                Ok(found) => self.stacks().len() > 0 && has_variable(self.frame().variables, name@)
                    && found == variable_of(self.frame().variables, name@).0,
                Err(error) => error@ == ErrorModel::Unknown && (self.stacks().len() == 0
                    || !has_variable(self.frame().variables, name@)),
            },
    {
        let variable = self.get_var(name)?;
        Ok(variable.0)
    }

    fn get_var_type(&self, name: &str) -> (var_type: Result<Type, Error>)
        ensures
            match var_type {
                Ok(found) => self.stacks().len() > 0 && has_variable(self.frame().variables, name@)
                    && found@ == variable_of(self.frame().variables, name@).1,
                Err(error) => error@ == ErrorModel::Unknown && (self.stacks().len() == 0
                    || !has_variable(self.frame().variables, name@)),
            },
    {
        let variable = self.get_var(name)?;
        Ok(variable.1)
    }

    fn get_current_fn_ctx(&self) -> (context: Result<&FnContext, Error>)
        ensures
            match context {
                Ok(found) => self.functions().len() > 0 && (found.ret_type@, found.stack_ctx_uid)
                    == self.functions().last(),
                Err(error) => self.functions().len() == 0 && error@ == ErrorModel::Unknown,
            },
    {
        let depth = self.fn_ctx_stack.len();
        if depth == 0 {
            return Err(Error::Unknown);
        }
        Ok(&self.fn_ctx_stack[depth - 1])
    }

    /// The function that a name stands for among the modules that are being
    /// compiled.
    #[verifier::loop_isolation(false)]
    #[verifier::rlimit(50)]
    pub fn resolve_fn(&self, fn_name: &str) -> (function: Result<&FunctionDef, Error>)
        ensures
            match function {
                Ok(found) => resolved(self.modules(), fn_name@) == Some(found@),
                Err(error) => resolved(self.modules(), fn_name@) is None && error@
                    == ErrorModel::Unknown,
            },
    {
        let depth = self.mod_def_stack.len();
        if depth == 0 {
            return Err(Error::Unknown);
        }
        assert(self.modules()[depth - 1] == self.mod_def_stack[depth - 1].model());
        assert(self.modules()[0] == self.mod_def_stack[0].model());
        let front_mod_def = &self.mod_def_stack[depth - 1];
        let mod_path = split_path(fn_name);
        if mod_path.len() > 1 {
            let ghost parts = path_parts(fn_name@, 0);
            assert(parts[0] == mod_path[0]@);
            let mut mod_def = if front_mod_def.has_module(mod_path[0].as_str()) {
                front_mod_def
            } else {
                &self.mod_def_stack[0]
            };
            let ghost start = mod_def@;
            let mut i: usize = 1;
            while i < mod_path.len() - 1
                invariant
                    1 <= i <= mod_path.len() - 1,
                    descended(mod_def@, parts, i as int) == descended(start, parts, 1),
                decreases mod_path.len() - i,
            {
                assert(parts[i as int] == mod_path[i as int]@);
                let mod_name = mod_path[i].as_str();
                if mod_def.has_module(mod_name) {
                    mod_def = match mod_def.get_module(mod_name) {
                        Ok(inner) => inner,
                        Err(_) => {
                            return Err(Error::Unknown);
                        },
                    };
                }
                i += 1;
            }
            assert(parts.last() == mod_path[mod_path.len() - 1]@);
            let last_part = mod_path[mod_path.len() - 1].as_str();
            match mod_def.get_function(last_part) {
                Ok(found) => Ok(found),
                Err(_) => Err(Error::Unknown),
            }
        } else {
            match front_mod_def.get_function(fn_name) {
                Ok(found) => Ok(found),
                Err(_) => Err(Error::Unknown),
            }
        }
    }

    /// Modules cannot be resolved by name yet.
    pub fn resolve_mod(&self, _name: &str) -> (module: Result<&ModuleDef, Error>)
        ensures
            module matches Err(error) && error@ == ErrorModel::Unknown,
    {
        Err(Error::Unknown)
    }

    /// Containers cannot be resolved by name yet.
    pub fn resolve_cont(&self, _name: &str) -> (container: Result<&ContDef, Error>)
        ensures
            container matches Err(error) && error@ == ErrorModel::Unknown,
    {
        Err(Error::Unknown)
    }

    fn get_next_uid(&mut self) -> (uid: u64)
        requires
            old(self).wf(),
        ensures
            final(self).wf(),
            !old(self).used().contains(uid),
            final(self).used() == old(self).used().insert(uid),
            final(self).modules() == old(self).modules(),
            final(self).functions() == old(self).functions(),
            final(self).declared() == old(self).declared(),
            final(self).stacks() == old(self).stacks(),
            final(self).assembly() == old(self).assembly(),
    {
        let uid = self.uid_gen.generate();
        assert(self.stacks() =~= old(self).stacks());
        assert(self.functions() =~= old(self).functions());
        uid
    }

    /// The number of bytes that a value of a type takes on the stack.
    pub fn get_size_of_type(var_type: &Type) -> (size: Result<usize, Error>)
        ensures
            match size {
                Ok(size) => size_of(var_type@) == Ok::<int, ErrorModel>(size as int) && size <= 8,
                Err(error) => size_of(var_type@) == Err::<int, ErrorModel>(error@),
            },
    {
        match var_type {
            Type::Int => Ok(8),
            Type::Float => Ok(4),
            Type::Ref(_) => Ok(8),
            Type::Bool => Ok(1),
            _ => Err(Error::UnknownType(var_type.duplicate())),
        }
    }

    /// The type of an expression among the variables of the stack on top;
    /// without a stack there are no variables.
    pub fn get_expr_type(&self, expr: &Expression) -> (expr_type: Result<Type, Error>)
        ensures
            match expr_type {
                Ok(found) => type_of(self.variables(), expr@) == Ok::<TypeModel, ErrorModel>(
                    found@,
                ),
                Err(error) => type_of(self.variables(), expr@) == Err::<TypeModel, ErrorModel>(
                    error@,
                ),
            },
        decreases expr, 1int,
    {
        match expr {
            Expression::IntLiteral(_) => Ok(Type::Int),
            Expression::BoolLiteral(_) => Ok(Type::Bool),
            Expression::FloatLiteral(_) => Ok(Type::Float),
            Expression::Variable(var_name) => {
                assert(!has_variable(Seq::empty(), var_name@));
                self.get_var_type(var_name.as_str())
            },
            Expression::StringLiteral(_) => {
                let text = Type::Str;
                assert(text@ == TypeModel::Str);
                Ok(Type::Ref(Box::new(text)))
            },
            Expression::Condition { .. } => self.get_expr_type_cond(expr),
            Expression::Unary(op, op_expr) => match op {
                Operator::Not => Ok(Type::Bool),
                Operator::Ref => {
                    let operand_type = self.get_expr_type(op_expr)?;
                    Ok(Type::Ref(Box::new(operand_type)))
                },
                Operator::Deref => {
                    let operand_type = self.get_expr_type(op_expr)?;
                    match operand_type {
                        Type::Ref(inner) => Ok(*inner),
                        _ => Err(Error::Unknown),
                    }
                },
                _ => self.get_expr_type(op_expr),
            },
            Expression::Binary(lhs_expr, _, rhs_expr) => {
                let lhs_type = self.get_expr_type(lhs_expr)?;
                let rhs_type = self.get_expr_type(rhs_expr)?;
                if !rhs_type.same(&lhs_type) {
                    return Err(Error::TypeMismatch(lhs_type, rhs_type));
                }
                Ok(lhs_type)
            },
            Expression::Call(_, _) => Err(Error::Unknown),
        }
    }

    /// The type of a conditional expression: the type of the value that it
    /// yields, or `Void` when it yields none.
    fn get_expr_type_cond(&self, expr: &Expression) -> (expr_type: Result<Type, Error>)
        requires
            expr is Condition,
        ensures
            match expr_type {
                Ok(found) => type_of(self.variables(), expr@) == Ok::<TypeModel, ErrorModel>(
                    found@,
                ),
                Err(error) => type_of(self.variables(), expr@) == Err::<TypeModel, ErrorModel>(
                    error@,
                ),
            },
        decreases expr, 0int,
    {
        match expr {
            Expression::Condition { yield_expr, .. } => match yield_expr {
                Some(yielded) => self.get_expr_type(yielded),
                None => Ok(Type::Void),
            },
            _ => Err(Error::Unknown),
        }
    }

    /// Emits the instruction that loads the value at a frame offset into a
    /// register.
    fn asm_load(&mut self, register: Register, offset: i32, width: usize) -> (result: Result<
        (),
        Error,
    >)
        requires
            old(self).wf(),
            width == 8 || width == 4 || width == 1,
        ensures
            final(self).wf(),
            match result {
                Ok(_) => fits_i16(displacement(offset as int, width as int)) && final(self).kept(
                    old(self),
                ) && final(self).stacks() == old(self).stacks() && final(self).assembly()
                    == appended(
                    old(self).assembly(),
                    seq![load(register, offset as int, width as int)],
                ),
                Err(error) => !fits_i16(displacement(offset as int, width as int)) && error@
                    == ErrorModel::Unknown,
            },
    {
        let place: i64 = -(offset as i64 + width as i64);
        if place < i16::MIN as i64 || place > i16::MAX as i64 {
            return Err(Error::Unknown);
        }
        let opcode = if width == 8 {
            Opcode::MOVI_AR
        } else if width == 4 {
            Opcode::MOVF_AR
        } else {
            Opcode::MOVB_AR
        };
        self.emit(Instruction::new_memory(opcode, register, Register::BP, place as i16));
        Ok(())
    }

    /// Emits the instruction that stores a register to the value at a frame
    /// offset.
    fn asm_store(&mut self, register: Register, offset: i32, width: usize) -> (result: Result<
        (),
        Error,
    >)
        requires
            old(self).wf(),
            width == 8 || width == 4 || width == 1,
        ensures
            final(self).wf(),
            match result {
                Ok(_) => fits_i16(displacement(offset as int, width as int)) && final(self).kept(
                    old(self),
                ) && final(self).stacks() == old(self).stacks() && final(self).assembly()
                    == appended(
                    old(self).assembly(),
                    seq![store(register, offset as int, width as int)],
                ),
                Err(error) => !fits_i16(displacement(offset as int, width as int)) && error@
                    == ErrorModel::Unknown,
            },
    {
        let place: i64 = -(offset as i64 + width as i64);
        if place < i16::MIN as i64 || place > i16::MAX as i64 {
            return Err(Error::Unknown);
        }
        let opcode = if width == 8 {
            Opcode::MOVI_RA
        } else if width == 4 {
            Opcode::MOVF_RA
        } else {
            Opcode::MOVB_RA
        };
        self.emit(Instruction::new_memory(opcode, register, Register::BP, place as i16));
        Ok(())
    }

    /// Emits the instructions that copy `n` bytes from one frame offset to
    /// another, in pieces of eight bytes, four bytes and one byte.
    #[verifier::loop_isolation(false)]
    #[verifier::rlimit(50)]
    fn asm_stack_copy(&mut self, from_offset: i32, to_offset: i32, n: usize) -> (result: Result<
        (),
        Error,
    >)
        requires
            old(self).wf(),
            n <= 8,
        ensures
            final(self).wf(),
            match copied(from_offset as int, to_offset as int, n as int, 0, Seq::empty()) {
                Ok(code) => result is Ok && final(self).kept(old(self)) && final(self).stacks()
                    == old(self).stacks() && final(self).assembly() == appended(
                    old(self).assembly(),
                    code,
                ),
                Err(error) => result matches Err(found) && found@ == error,
            },
    {
        let ghost expected = copied(from_offset as int, to_offset as int, n as int, 0, Seq::empty());
        let ghost mut code: Seq<InstructionModel> = Seq::empty();
        let mut offset: usize = 0;
        assert(old(self).assembly().instructions + code =~= old(self).assembly().instructions);
        while offset < n
            invariant
                offset <= n,
                self.wf(),
                self.kept(old(self)),
                self.stacks() == old(self).stacks(),
                self.assembly() == appended(old(self).assembly(), code),
                expected == copied(
                    from_offset as int,
                    to_offset as int,
                    n as int,
                    offset as int,
                    code,
                ),
            decreases n - offset,
        {
            let left = n - offset;
            let width: usize = if left >= 8 {
                8
            } else if left >= 4 {
                4
            } else {
                1
            };
            let pos = from_offset as i64 + offset as i64;
            let target_pos = to_offset as i64 + offset as i64;
            if -(pos + width as i64) < i16::MIN as i64 || -(pos + width as i64) > i16::MAX as i64
                || -(target_pos + width as i64) < i16::MIN as i64 || -(target_pos + width as i64)
                > i16::MAX as i64 {
                return Err(Error::Unknown);
            }
            let ghost before = self.assembly().instructions;
            self.asm_load(Register::R4, pos as i32, width)?;
            self.asm_store(Register::R4, target_pos as i32, width)?;
            proof {
                let pair = seq![
                    load(Register::R4, pos as int, width as int),
                    store(Register::R4, target_pos as int, width as int),
                ];
                assert(self.assembly().instructions =~= old(self).assembly().instructions + (code
                    + pair));
                code = code + pair;
            }
            offset += width;
        }
        Ok(())
    }

    /// Compiles an expression: its value is put on top of the stack, and
    /// what its operands left below the value is closed up.
    #[verifier::rlimit(50)]
    pub fn compile_expr(&mut self, expr: &Expression) -> (result: Result<(), Error>)
        requires
            old(self).wf(),
        ensures
            final(self).wf(),
            final(self).lowered(old(self), result, expression_code(old(self).frame(), expr@)),
        decreases nesting(expr@), 2int,
    {
        let start_pos = self.get_stack_pos()?;
        let expr_type = self.get_expr_type(expr)?;
        let expr_size = Compiler::get_size_of_type(&expr_type)?;
        self.compile_value(expr)?;
        let ghost value = value_code(old(self).frame(), expr@)->Ok_0;
        let ghost middle = *self;
        let end_pos = self.get_stack_pos()?;
        if end_pos as i64 - start_pos as i64 > expr_size as i64 {
            let diff = (end_pos as i64 - start_pos as i64) - expr_size as i64;
            let to_pos = start_pos;
            let from_pos = (end_pos as i64 - expr_size as i64) as i32;
            proof {
                lemma_copied_behind(
                    from_pos as int,
                    to_pos as int,
                    expr_size as int,
                    0,
                    Seq::empty(),
                    value.code,
                );
                assert(value.code + Seq::<InstructionModel>::empty() =~= value.code);
            }
            self.asm_stack_copy(from_pos, to_pos, expr_size)?;
            let ghost copy = copied(
                from_pos as int,
                to_pos as int,
                expr_size as int,
                0,
                Seq::empty(),
            )->Ok_0;
            self.dec_stack(diff as isize)?;
            assert(self.assembly().instructions =~= old(self).assembly().instructions + (value.code
                + copy));
            assert(self.stacks() =~= old(self).stacks().drop_last().push(
                with_frame(
                    old(self).stacks().last(),
                    shifted(value.frame, start_pos + expr_size),
                ),
            ));
        }
        Ok(())
    }

    /// Compiles an expression whose type is known; the stack is not closed
    /// up.
    #[verifier::rlimit(50)]
    fn compile_value(&mut self, expr: &Expression) -> (result: Result<(), Error>)
        requires
            old(self).wf(),
            old(self).stacks().len() > 0,
        ensures
            final(self).wf(),
            final(self).emitted(old(self), result, value_code(old(self).frame(), expr@)),
        decreases nesting(expr@), 1int,
    {
        match expr {
            Expression::Variable(var_name) => {
                let var_pos = self.get_var_position(var_name.as_str())?;
                let var_type = self.get_var_type(var_name.as_str())?;
                let var_size = Compiler::get_size_of_type(&var_type)?;
                let target_pos = self.get_stack_pos()?;
                self.inc_stack(var_size as isize)?;
                self.asm_stack_copy(var_pos, target_pos, var_size)?;
                assert(self.stacks() =~= old(self).stacks().drop_last().push(
                    with_frame(
                        old(self).stacks().last(),
                        shifted(old(self).frame(), target_pos + var_size),
                    ),
                ));
                assert(self.assembly().instructions =~= old(self).assembly().instructions + copied(
                    var_pos as int,
                    target_pos as int,
                    var_size as int,
                    0,
                    Seq::empty(),
                )->Ok_0);
                Ok(())
            },
            Expression::IntLiteral(int_val) => {
                let pos = self.get_stack_pos()?;
                if -(pos as i64 + 8) < i16::MIN as i64 || -(pos as i64 + 8) > i16::MAX as i64 {
                    return Err(Error::Unknown);
                }
                self.inc_stack(8)?;
                self.emit(Instruction::new_immediate(Opcode::LDI, Register::R0, *int_val as u64));
                self.asm_store(Register::R0, pos, 8)?;
                assert(self.stacks() =~= old(self).stacks().drop_last().push(
                    with_frame(old(self).stacks().last(), shifted(old(self).frame(), pos + 8)),
                ));
                assert(self.assembly().instructions =~= old(self).assembly().instructions + seq![
                    on_immediate(Opcode::LDI, Register::R0, *int_val as u64),
                    store(Register::R0, pos as int, 8),
                ]);
                Ok(())
            },
            Expression::FloatLiteral(_) => Err(Error::Unimplemented("Float literal")),
            Expression::Condition { .. } => self.compile_expr_cond(expr),
            Expression::Call(fn_name, fn_args) => self.compile_expr_call(fn_name, fn_args),
            Expression::Unary(op, op_expr) => match op {
                Operator::Ref => self.compile_expr_ref(op_expr),
                Operator::Deref => self.compile_expr_deref(op_expr),
                _ => Err(Error::Unknown),
            },
            Expression::Binary(lhs_expr, op, rhs_expr) => match op {
                Operator::Plus => self.compile_expr_add(lhs_expr, rhs_expr),
                Operator::Minus => self.compile_expr_sub(lhs_expr, rhs_expr),
                Operator::Times => self.compile_expr_mul(lhs_expr, rhs_expr),
                Operator::Divide => self.compile_expr_div(lhs_expr, rhs_expr),
                Operator::Assign => self.compile_expr_assign(lhs_expr, rhs_expr),
                Operator::AddAssign => self.compile_expr_add_assign(lhs_expr, rhs_expr),
                Operator::SubAssign => self.compile_expr_sub_assign(lhs_expr, rhs_expr),
                Operator::MulAssign => self.compile_expr_mul_assign(lhs_expr, rhs_expr),
                Operator::DivAssign => self.compile_expr_div_assign(lhs_expr, rhs_expr),
                _ => Err(Error::Unknown),
            },
            _ => Err(Error::Unknown),
        }
    }

    fn compile_expr_cond(&mut self, _expr: &Expression) -> (result: Result<(), Error>)
        ensures
            *final(self) == *old(self),
            result matches Err(error) && error@ == ErrorModel::Unimplemented(
                "Condition expr compilation",
            ),
    {
        Err(Error::Unimplemented("Condition expr compilation"))
    }

    fn compile_expr_call(&mut self, _fn_name: &String, _fn_args: &Vec<Expression>) -> (result:
        Result<(), Error>)
        ensures
            *final(self) == *old(self),
            result matches Err(error) && error@ == ErrorModel::Unimplemented("Call expression"),
    {
        Err(Error::Unimplemented("Call expression"))
    }

    fn compile_expr_deref(&mut self, _expr: &Expression) -> (result: Result<(), Error>)
        ensures
            *final(self) == *old(self),
            result matches Err(error) && error@ == ErrorModel::Unimplemented("Deref expression"),
    {
        Err(Error::Unimplemented("Deref expression"))
    }

    fn compile_expr_ref(&mut self, _expr: &Expression) -> (result: Result<(), Error>)
        ensures
            *final(self) == *old(self),
            result matches Err(error) && error@ == ErrorModel::Unimplemented("Ref expression"),
    {
        Err(Error::Unimplemented("Ref expression"))
    }

    /// Compiles an arithmetic operator: both operands are computed, loaded
    /// into registers and combined, by the integer instruction or by the
    /// float instruction as the type of the operands asks.
    #[verifier::rlimit(40)]
    fn compile_expr_arithmetic(
        &mut self,
        op: Operator,
        lhs_expr: &Expression,
        rhs_expr: &Expression,
    ) -> (result: Result<(), Error>)
        requires
            old(self).wf(),
            old(self).stacks().len() > 0,
            is_arithmetic(op),
        ensures
            final(self).wf(),
            final(self).emitted(
                old(self),
                result,
                arithmetic_code(
                    old(self).frame(),
                    ExpressionModel::Binary(Box::new(lhs_expr@), op, Box::new(rhs_expr@)),
                ),
            ),
        decreases
                if nesting(lhs_expr@) > nesting(rhs_expr@) {
                    nesting(lhs_expr@)
                } else {
                    nesting(rhs_expr@)
                },
                3int,
    {
        let expr_type = self.get_expr_type(lhs_expr)?;
        let width: usize = match expr_type {
            Type::Int => 8,
            Type::Float => 4,
            _ => {
                return Err(Error::Unknown);
            },
        };
        let lhs_pos = self.get_stack_pos()?;
        self.compile_expr(lhs_expr)?;
        let ghost left = expression_code(old(self).frame(), lhs_expr@)->Ok_0;
        let rhs_pos = self.get_stack_pos()?;
        self.compile_expr(rhs_expr)?;
        let ghost right = expression_code(left.frame, rhs_expr@)->Ok_0;
        let ghost middle = *self;
        self.asm_combine(op, width, lhs_pos, rhs_pos)?;
        let ghost pos = right.frame.stack_pos;
        assert(self.assembly().instructions =~= old(self).assembly().instructions + (left.code
            + right.code + combined(op, width as int, lhs_pos as int, rhs_pos as int, pos)));
        assert(self.stacks() =~= old(self).stacks().drop_last().push(
            with_frame(old(self).stacks().last(), shifted(right.frame, pos + width)),
        ));
        Ok(())
    }

    /// Emits the instructions that load two operands into registers,
    /// combine them and store the result on top of the stack.
    #[verifier::rlimit(50)]
    fn asm_combine(&mut self, op: Operator, width: usize, lhs_pos: i32, rhs_pos: i32) -> (result:
        Result<(), Error>)
        requires
            old(self).wf(),
            old(self).stacks().len() > 0,
            width == 8 || width == 4,
        ensures
            final(self).wf(),
            final(self).emitted(
                old(self),
                result,
                if !fits_i32(old(self).frame().stack_pos + width) || !fits_i16(
                    displacement(lhs_pos as int, width as int),
                ) || !fits_i16(displacement(rhs_pos as int, width as int)) || !fits_i16(
                    displacement(old(self).frame().stack_pos, width as int),
                ) {
                    Err(ErrorModel::Unknown)
                } else {
                    Ok(
                        Lowered {
                            code: combined(
                                op,
                                width as int,
                                lhs_pos as int,
                                rhs_pos as int,
                                old(self).frame().stack_pos,
                            ),
                            frame: shifted(
                                old(self).frame(),
                                old(self).frame().stack_pos + width,
                            ),
                        },
                    )
                },
            ),
    {
        let pos = self.get_stack_pos()?;
        if pos as i64 + width as i64 > i32::MAX as i64 {
            return Err(Error::Unknown);
        }
        if !Compiler::in_reach(lhs_pos, width) || !Compiler::in_reach(rhs_pos, width)
            || !Compiler::in_reach(pos, width) {
            return Err(Error::Unknown);
        }
        self.asm_load(Register::R0, lhs_pos, width)?;
        self.asm_load(Register::R1, rhs_pos, width)?;
        let opcode = if width == 8 {
            match op {
                Operator::Plus => Opcode::ADDI,
                Operator::Minus => Opcode::SUBI,
                Operator::Times => Opcode::MULI,
                _ => Opcode::DIVI,
            }
        } else {
            match op {
                Operator::Plus => Opcode::ADDF,
                Operator::Minus => Opcode::SUBF,
                Operator::Times => Opcode::MULF,
                _ => Opcode::DIVF,
            }
        };
        self.emit(Instruction::new_registers(opcode, Register::R1, Register::R0));
        self.inc_stack(width as isize)?;
        self.asm_store(Register::R0, pos, width)?;
        assert(self.assembly().instructions =~= old(self).assembly().instructions + combined(
            op,
            width as int,
            lhs_pos as int,
            rhs_pos as int,
            pos as int,
        ));
        assert(self.stacks() =~= old(self).stacks().drop_last().push(
            with_frame(old(self).stacks().last(), shifted(old(self).frame(), pos + width)),
        ));
        Ok(())
    }

    /// Whether the value at a frame offset can be addressed from the frame
    /// base.
    fn in_reach(offset: i32, width: usize) -> (reach: bool)
        requires
            width <= 8,
        ensures
            reach == fits_i16(displacement(offset as int, width as int)),
    {
        let place: i64 = -(offset as i64 + width as i64);
        i16::MIN as i64 <= place && place <= i16::MAX as i64
    }

    fn compile_expr_add(&mut self, lhs_expr: &Expression, rhs_expr: &Expression) -> (result: Result<
        (),
        Error,
    >)
        requires
            old(self).wf(),
            old(self).stacks().len() > 0,
        ensures
            final(self).wf(),
            final(self).emitted(
                old(self),
                result,
                arithmetic_code(
                    old(self).frame(),
                    ExpressionModel::Binary(
                        Box::new(lhs_expr@),
                        Operator::Plus,
                        Box::new(rhs_expr@),
                    ),
                ),
            ),
        decreases
                if nesting(lhs_expr@) > nesting(rhs_expr@) {
                    nesting(lhs_expr@)
                } else {
                    nesting(rhs_expr@)
                },
                4int,
    {
        self.compile_expr_arithmetic(Operator::Plus, lhs_expr, rhs_expr)
    }

    fn compile_expr_sub(&mut self, lhs_expr: &Expression, rhs_expr: &Expression) -> (result: Result<
        (),
        Error,
    >)
        requires
            old(self).wf(),
            old(self).stacks().len() > 0,
        ensures
            final(self).wf(),
            final(self).emitted(
                old(self),
                result,
                arithmetic_code(
                    old(self).frame(),
                    ExpressionModel::Binary(
                        Box::new(lhs_expr@),
                        Operator::Minus,
                        Box::new(rhs_expr@),
                    ),
                ),
            ),
        decreases
                if nesting(lhs_expr@) > nesting(rhs_expr@) {
                    nesting(lhs_expr@)
                } else {
                    nesting(rhs_expr@)
                },
                4int,
    {
        self.compile_expr_arithmetic(Operator::Minus, lhs_expr, rhs_expr)
    }

    fn compile_expr_mul(&mut self, lhs_expr: &Expression, rhs_expr: &Expression) -> (result: Result<
        (),
        Error,
    >)
        requires
            old(self).wf(),
            old(self).stacks().len() > 0,
        ensures
            final(self).wf(),
            final(self).emitted(
                old(self),
                result,
                arithmetic_code(
                    old(self).frame(),
                    ExpressionModel::Binary(
                        Box::new(lhs_expr@),
                        Operator::Times,
                        Box::new(rhs_expr@),
                    ),
                ),
            ),
        decreases
                if nesting(lhs_expr@) > nesting(rhs_expr@) {
                    nesting(lhs_expr@)
                } else {
                    nesting(rhs_expr@)
                },
                4int,
    {
        self.compile_expr_arithmetic(Operator::Times, lhs_expr, rhs_expr)
    }

    fn compile_expr_div(&mut self, lhs_expr: &Expression, rhs_expr: &Expression) -> (result: Result<
        (),
        Error,
    >)
        requires
            old(self).wf(),
            old(self).stacks().len() > 0,
        ensures
            final(self).wf(),
            final(self).emitted(
                old(self),
                result,
                arithmetic_code(
                    old(self).frame(),
                    ExpressionModel::Binary(
                        Box::new(lhs_expr@),
                        Operator::Divide,
                        Box::new(rhs_expr@),
                    ),
                ),
            ),
        decreases
                if nesting(lhs_expr@) > nesting(rhs_expr@) {
                    nesting(lhs_expr@)
                } else {
                    nesting(rhs_expr@)
                },
                4int,
    {
        self.compile_expr_arithmetic(Operator::Divide, lhs_expr, rhs_expr)
    }

    fn compile_expr_assign(&mut self, _lhs_expr: &Expression, _rhs_expr: &Expression) -> (result:
        Result<(), Error>)
        ensures
            *final(self) == *old(self),
            result matches Err(error) && error@ == ErrorModel::Unimplemented("Assign expression"),
    {
        Err(Error::Unimplemented("Assign expression"))
    }

    fn compile_expr_add_assign(&mut self, _lhs_expr: &Expression, _rhs_expr: &Expression) -> (result:
        Result<(), Error>)
        ensures
            *final(self) == *old(self),
            result matches Err(error) && error@ == ErrorModel::Unimplemented(
                "Add assign expression",
            ),
    {
        Err(Error::Unimplemented("Add assign expression"))
    }

    fn compile_expr_sub_assign(&mut self, _lhs_expr: &Expression, _rhs_expr: &Expression) -> (result:
        Result<(), Error>)
        ensures
            *final(self) == *old(self),
            result matches Err(error) && error@ == ErrorModel::Unimplemented(
                "Sub assign expression",
            ),
    {
        Err(Error::Unimplemented("Sub assign expression"))
    }

    fn compile_expr_mul_assign(&mut self, _lhs_expr: &Expression, _rhs_expr: &Expression) -> (result:
        Result<(), Error>)
        ensures
            *final(self) == *old(self),
            result matches Err(error) && error@ == ErrorModel::Unimplemented(
                "Mul assign expression",
            ),
    {
        Err(Error::Unimplemented("Mul assign expression"))
    }

    fn compile_expr_div_assign(&mut self, _lhs_expr: &Expression, _rhs_expr: &Expression) -> (result:
        Result<(), Error>)
        ensures
            *final(self) == *old(self),
            result matches Err(error) && error@ == ErrorModel::Unimplemented(
                "Div assign expression",
            ),
    {
        Err(Error::Unimplemented("Div assign expression"))
    }

    /// Stores the arguments of a function, which come in registers, on the
    /// stack and binds each to its place: integers come in `R0` to `R3`,
    /// floats in `R4` to `R7`.
    #[verifier::loop_isolation(false)]
    #[verifier::rlimit(50)]
    pub fn asm_args_to_stack(&mut self, fn_args: &Vec<(String, Type)>) -> (result: Result<(), Error>)
        requires
            old(self).wf(),
        ensures
            final(self).wf(),
            final(self).lowered(
                old(self),
                result,
                arguments_code(old(self).frame(), crate::parser::ast::fields_model(fn_args)),
            ),
    {
        self.get_stack_pos()?;
        let ghost arguments = crate::parser::ast::fields_model(fn_args);
        let mut first: usize = 0;
        while first < fn_args.len()
            invariant
                first <= fn_args.len(),
                forall|j: int| 0 <= j < first ==> size_of(#[trigger] arguments[j].1) is Ok,
            decreases fn_args.len() - first,
        {
            assert(arguments[first as int] == (fn_args[first as int].0@, fn_args[first as int].1@));
            proof {
                lemma_first_size_error(arguments, 0, first as int);
            }
            Compiler::get_size_of_type(&fn_args[first].1)?;
            first += 1;
        }
        let mut arg_size: i128 = 0;
        let mut k = fn_args.len();
        while k > 0
            invariant
                k <= fn_args.len(),
                forall|j: int| 0 <= j < fn_args.len() ==> size_of(#[trigger] arguments[j].1) is Ok,
                0 <= arg_size <= 8 * (fn_args.len() - k),
                arguments_size(arguments, k as int) == Ok::<int, ErrorModel>(arg_size as int),
            decreases k,
        {
            k -= 1;
            assert(arguments[k as int] == (fn_args[k as int].0@, fn_args[k as int].1@));
            assert(size_of(arguments[k as int].1) is Ok);
            let size = Compiler::get_size_of_type(&fn_args[k].1)?;
            arg_size += size as i128;
        }
        let pos = self.get_stack_pos()?;
        let target = pos as i128 + arg_size;
        if target < i32::MIN as i128 || target > i32::MAX as i128 {
            return Err(Error::Unknown);
        }
        self.move_stack(target as i32);
        let ghost grown = *self;
        let mut offset: i64 = 0;
        let mut int_reg_ctr: usize = 0;
        let mut float_reg_ctr: usize = 0;
        let ghost expected = arguments_code(old(self).frame(), arguments);
        let ghost mut code: Seq<InstructionModel> = Seq::empty();
        let mut i: usize = 0;
        assert(self.assembly().instructions + code =~= self.assembly().instructions);
        while i < fn_args.len()
            invariant
                i <= fn_args.len(),
                self.wf(),
                self.stacks().len() > 0,
                int_reg_ctr <= 4,
                float_reg_ctr <= 4,
                0 <= offset <= 8 * i,
                self.advanced_by(old(self), Lowered { code, frame: self.frame() }),
                expected == passed(
                    arguments,
                    i as int,
                    Passing {
                        offset: offset as int,
                        integers: int_reg_ctr as int,
                        floats: float_reg_ctr as int,
                    },
                    Lowered { code, frame: self.frame() },
                ),
            decreases fn_args.len() - i,
        {
            assert(arguments[i as int] == (fn_args[i as int].0@, fn_args[i as int].1@));
            let arg_name = fn_args[i].0.as_str();
            let (width, register): (usize, Register) = match &fn_args[i].1 {
                Type::Int => {
                    let register = match int_reg_ctr {
                        0 => Register::R0,
                        1 => Register::R1,
                        2 => Register::R2,
                        3 => Register::R3,
                        _ => {
                            return Err(Error::Unknown);
                        },
                    };
                    int_reg_ctr += 1;
                    (8, register)
                },
                Type::Float => {
                    let register = match float_reg_ctr {
                        0 => Register::R4,
                        1 => Register::R5,
                        2 => Register::R6,
                        3 => Register::R7,
                        _ => {
                            return Err(Error::Unknown);
                        },
                    };
                    float_reg_ctr += 1;
                    (4, register)
                },
                _ => {
                    return Err(Error::Unimplemented("NOT IMPLEMENTED"));
                },
            };
            if offset > i32::MAX as i64 {
                return Err(Error::Unknown);
            }
            let ghost before = *self;
            self.asm_store(register, offset as i32, width)?;
            let ghost stacks = self.stacks();
            let depth = self.stack_ctx_stack.len();
            assert(stacks[depth - 1] == self.stack_ctx_stack[depth - 1]@);
            let mut stack_ctx = match self.stack_ctx_stack.pop() {
                Some(stack_ctx) => stack_ctx,
                None => {
                    return Err(Error::Unknown);
                },
            };
            stack_ctx.set_var(offset as i32, arg_name, &fn_args[i].1);
            let ghost bound = stack_ctx@;
            self.stack_ctx_stack.push(stack_ctx);
            proof {
                assert(self.stacks() =~= stacks.drop_last().push(bound));
                assert(self.functions() =~= old(self).functions());
                let stored = seq![store(register, offset as int, width as int)];
                assert(self.assembly().instructions =~= old(self).assembly().instructions + (code
                    + stored));
                assert(self.stacks() =~= old(self).stacks().drop_last().push(
                    with_frame(old(self).stacks().last(), self.frame()),
                ));
                code = code + stored;
            }
            offset += width as i64;
            i += 1;
        }
        Ok(())
    }

    /// Gives the stack back that the stacks from the one on top down to the
    /// stack `stack_ctx_uid` hold.
    #[verifier::loop_isolation(false)]
    #[verifier::rlimit(50)]
    fn asm_stack_ret(&mut self, stack_ctx_uid: u64) -> (result: Result<(), Error>)
        requires
            old(self).wf(),
            old(self).stacks().len() > 0,
        ensures
            final(self).wf(),
            final(self).emitted(
                old(self),
                result,
                given_back(old(self).frame(), held_below(old(self).stacks(), stack_ctx_uid)),
            ),
    {
        let ghost stacks = self.stacks();
        let depth = self.stack_ctx_stack.len();
        let mut pop_size: i64 = 0;
        let mut i = depth;
        let mut found = false;
        while i > 0 && !found
            invariant
                i <= depth,
                0 <= pop_size <= i32::MAX,
                found ==> pop_size == held(stacks, stack_ctx_uid, depth - 1),
                !found ==> pop_size + held(stacks, stack_ctx_uid, i - 1) == held(
                    stacks,
                    stack_ctx_uid,
                    depth - 1,
                ),
            decreases i + if found { 0int } else { 1int },
        {
            i -= 1;
            assert(stacks[i as int] == self.stack_ctx_stack[i as int]@);
            assert(well_formed(stacks[i as int]));
            proof {
                lemma_highest(stacks[i as int].observed);
                lemma_held_nonnegative(self.stacks(), stack_ctx_uid, i - 1);
            }
            let extent = self.stack_ctx_stack[i].stack_extent;
            if pop_size + extent as i64 > i32::MAX as i64 {
                return Err(Error::Unknown);
            }
            pop_size += extent as i64;
            if self.stack_ctx_stack[i].uid == stack_ctx_uid {
                found = true;
            }
        }
        assert(pop_size == held(stacks, stack_ctx_uid, depth - 1));
        assert(pop_size == self.frame().stack_extent + held_below(stacks, stack_ctx_uid));
        self.dec_stack(pop_size as isize)?;
        self.emit(Instruction::new_dec_stack(pop_size as usize));
        assert(self.assembly().instructions =~= old(self).assembly().instructions + seq![
            release(pop_size as u64),
        ]);
        Ok(())
    }

    /// Compiles a `return`: the type of the value is held against the return
    /// type of the function, the value is computed and loaded into `R0`,
    /// the stack is given back and the function is left.
    #[verifier::rlimit(50)]
    pub fn compile_stmt_return(&mut self, stmt: &Statement) -> (result: Result<(), Error>)
        requires
            old(self).wf(),
        ensures
            final(self).wf(),
            final(self).lowered(
                old(self),
                result,
                if stmt is Return {
                    statement_code(old(self).frame(), old(self).returning(), stmt@)
                } else {
                    Err(ErrorModel::Unknown)
                },
            ),
    {
        let expr_opt = match stmt {
            Statement::Return(expr_opt) => expr_opt,
            _ => {
                return Err(Error::Unknown);
            },
        };
        self.get_stack_pos()?;
        let (ret_type, suid) = {
            let fn_ctx = self.get_current_fn_ctx()?;
            (fn_ctx.ret_type.duplicate(), fn_ctx.stack_ctx_uid)
        };
        let ghost returning = self.returning()->0;
        let ghost mut computed = Lowered { code: Seq::empty(), frame: self.frame() };
        assert(stmt@ == StatementModel::Return(crate::parser::ast::optional_model(expr_opt)));
        if let Some(expr) = expr_opt {
            let expr_type = self.get_expr_type(expr)?;
            if !ret_type.same(&expr_type) {
                return Err(Error::TypeMismatch(ret_type, expr_type));
            }
            let pos = self.get_stack_pos()?;
            self.compile_expr(expr)?;
            let ghost lowered = expression_code(old(self).frame(), expr@)->Ok_0;
            match expr_type {
                Type::Int => {
                    self.asm_load(Register::R0, pos, 8)?;
                    proof {
                        computed =
                        Lowered {
                            code: lowered.code + seq![load(Register::R0, pos as int, 8)],
                            frame: lowered.frame,
                        };
                    }
                },
                Type::Float => {
                    self.asm_load(Register::R0, pos, 4)?;
                    proof {
                        computed =
                        Lowered {
                            code: lowered.code + seq![load(Register::R0, pos as int, 4)],
                            frame: lowered.frame,
                        };
                    }
                },
                _ => {
                    return Err(Error::Unimplemented("Other return types not implemented yet!"));
                },
            };
            assert(self.assembly().instructions =~= old(self).assembly().instructions
                + computed.code);
        } else {
            assert(self.assembly().instructions =~= old(self).assembly().instructions
                + computed.code);
            assert(self.stacks() =~= old(self).stacks().drop_last().push(
                with_frame(old(self).stacks().last(), computed.frame),
            ));
        }
        assert(held_below(self.stacks(), suid) == held_below(old(self).stacks(), suid)) by {
            lemma_held_same_below(old(self).stacks(), self.stacks(), suid, self.stacks().len() - 2);
        }
        self.asm_stack_ret(suid)?;
        self.emit(Instruction::new(Opcode::RET));
        let ghost pop_size = computed.frame.stack_extent + returning.below;
        assert(self.assembly().instructions =~= old(self).assembly().instructions + (computed.code
            + seq![release(pop_size as u64), plain(Opcode::RET)]));
        assert(self.stacks() =~= old(self).stacks().drop_last().push(
            with_frame(
                old(self).stacks().last(),
                shifted(computed.frame, computed.frame.stack_pos - pop_size),
            ),
        ));
        Ok(())
    }

    /// Compiles a variable declaration: the value is computed on top of the
    /// stack, and the variable is bound to the place of the value. A
    /// variable declared `Auto` takes the type of the value.
    #[verifier::rlimit(50)]
    pub fn compile_stmt_var_decl(&mut self, stmt: &Statement) -> (result: Result<(), Error>)
        requires
            old(self).wf(),
        ensures
            final(self).wf(),
            final(self).lowered(
                old(self),
                result,
                if stmt is VarDeclaration {
                    statement_code(old(self).frame(), old(self).returning(), stmt@)
                } else {
                    Err(ErrorModel::Unknown)
                },
            ),
    {
        let (var_name, declared_type, var_expr) = match stmt {
            Statement::VarDeclaration { name, var_type, expr } => (name, var_type, expr),
            _ => {
                return Err(Error::Unknown);
            },
        };
        self.get_stack_pos()?;
        let expr_type = self.get_expr_type(var_expr)?;
        let var_type = match declared_type {
            Type::Auto => expr_type,
            _ => declared_type.duplicate(),
        };
        let var_size = Compiler::get_size_of_type(&var_type)?;
        self.compile_expr(var_expr)?;
        let ghost value = expression_code(old(self).frame(), var_expr@)->Ok_0;
        let pos = self.get_stack_pos()?;
        let var_pos = pos as i64 - var_size as i64;
        if var_pos < i32::MIN as i64 {
            return Err(Error::Unknown);
        }
        let ghost before = self.stacks();
        let depth = self.stack_ctx_stack.len();
        assert(before[depth - 1] == self.stack_ctx_stack[depth - 1]@);
        let mut stack_ctx = match self.stack_ctx_stack.pop() {
            Some(stack_ctx) => stack_ctx,
            None => {
                return Err(Error::Unknown);
            },
        };
        stack_ctx.set_var(var_pos as i32, var_name.as_str(), &var_type);
        let ghost after = stack_ctx@;
        self.stack_ctx_stack.push(stack_ctx);
        assert(self.stacks() =~= before.drop_last().push(after));
        assert(self.functions() =~= old(self).functions());
        assert(self.stacks() =~= old(self).stacks().drop_last().push(
            with_frame(
                old(self).stacks().last(),
                Frame {
                    variables: with_variable(
                        value.frame.variables,
                        var_name@,
                        var_pos as i32,
                        var_type@,
                    ),
                    ..value.frame
                },
            ),
        ));
        Ok(())
    }

    /// Compiles an expression statement.
    pub fn compile_stmt_expr(&mut self, stmt: &Statement) -> (result: Result<(), Error>)
        requires
            old(self).wf(),
        ensures
            final(self).wf(),
            final(self).lowered(
                old(self),
                result,
                if stmt is ExpressionStmt {
                    statement_code(old(self).frame(), old(self).returning(), stmt@)
                } else {
                    Err(ErrorModel::Unknown)
                },
            ),
    {
        let expr = match stmt {
            Statement::ExpressionStmt(expr) => expr,
            _ => {
                return Err(Error::Unknown);
            },
        };
        self.compile_expr(expr)
    }

    /// Compiles a statement. Only variable declarations, expression
    /// statements and `return` are compiled.
    pub fn compile_stmt(&mut self, stmt: &Statement) -> (result: Result<(), Error>)
        requires
            old(self).wf(),
        ensures
            final(self).wf(),
            final(self).lowered(
                old(self),
                result,
                statement_code(old(self).frame(), old(self).returning(), stmt@),
            ),
    {
        self.get_stack_pos()?;
        match stmt {
            Statement::VarDeclaration { .. } => self.compile_stmt_var_decl(stmt),
            Statement::ExpressionStmt(_) => self.compile_stmt_expr(stmt),
            Statement::Return(_) => self.compile_stmt_return(stmt),
            _ => Err(Error::Unimplemented("Statement")),
        }
    }

    /// Compiles the statements of a list, in order.
    #[verifier::loop_isolation(false)]
    #[verifier::rlimit(50)]
    pub fn compile_stmt_list(&mut self, stmt_list: &Vec<Statement>) -> (result: Result<(), Error>)
        requires
            old(self).wf(),
        ensures
            final(self).wf(),
            final(self).lowered(
                old(self),
                result,
                statements_code(
                    old(self).frame(),
                    old(self).returning(),
                    statements_model(stmt_list),
                    0,
                    Seq::empty(),
                ),
            ),
    {
        self.get_stack_pos()?;
        let ghost statements = statements_model(stmt_list);
        let ghost returning = self.returning();
        let ghost expected = statements_code(self.frame(), returning, statements, 0, Seq::empty());
        let ghost mut code: Seq<InstructionModel> = Seq::empty();
        assert(self.assembly().instructions + code =~= self.assembly().instructions);
        assert(self.stacks() =~= old(self).stacks().drop_last().push(
            with_frame(old(self).stacks().last(), self.frame()),
        ));
        let mut i: usize = 0;
        while i < stmt_list.len()
            invariant
                i <= stmt_list.len(),
                self.wf(),
                self.stacks().len() > 0,
                self.advanced_by(old(self), Lowered { code, frame: self.frame() }),
                self.returning() == returning,
                expected == statements_code(self.frame(), returning, statements, i as int, code),
            decreases stmt_list.len() - i,
        {
            let ghost before = *self;
            assert(statements[i as int] == stmt_list[i as int]@);
            self.compile_stmt(&stmt_list[i])?;
            proof {
                let first = statement_code(before.frame(), returning, statements[i as int])->Ok_0;
                assert(self.assembly().instructions =~= old(self).assembly().instructions + (code
                    + first.code));
                assert(self.stacks() =~= old(self).stacks().drop_last().push(
                    with_frame(old(self).stacks().last(), first.frame),
                ));
                lemma_held_same_below(
                    before.stacks(),
                    self.stacks(),
                    self.functions().last().1,
                    self.stacks().len() - 2,
                );
                code = code + first.code;
            }
            i += 1;
        }
        Ok(())
    }

    /// Compiles a function declaration: a label with the canonical name of
    /// the function, the instructions that set the frame base and reserve
    /// the stack, the statements, and a halt. The stack is reserved with the
    /// extent that the stack of the function reached, which is the largest
    /// position that its top ever had.
    #[verifier::loop_isolation(false)]
    #[verifier::rlimit(50)]
    pub fn compile_decl_fn(&mut self, decl: &Declaration) -> (result: Result<(), Error>)
        requires
            old(self).wf(),
        ensures
            final(self).wf(),
            result is Ok ==> old(self).used().subset_of(final(self).used()),
            match function_code(path_of(old(self).modules()), decl@) {
                Ok(function) => result is Ok && final(self).holds(old(self), function),
                Err(error) => result matches Err(found) && found@ == error,
            },
            function_code(path_of(old(self).modules()), decl@) matches Ok(Some(function))
                ==> final(self).assembly().instructions[old(self).assembly().instructions.len()
                + 1int] == reserve(highest(function.frame.observed) as u64),
    {
        let (name, ret_type, args, stmt_list) = match decl {
            Declaration::Function { name, arguments, returns: return_type, body, .. } => {
                match body {
                    None => {
                        assert(self.assembly().instructions + Seq::<InstructionModel>::empty()
                            =~= self.assembly().instructions);
                        return Ok(());
                    },
                    Some(stmt_list) => (name, return_type, arguments, stmt_list),
                }
            },
            _ => {
                return Err(Error::Unknown);
            },
        };
        let ghost path = path_of(self.modules());
        let full_fn_name = self.get_module_path()?.concat(name.as_str());

        // Create a new stack context
        let stack_ctx_uid = self.get_next_uid();
        let mut stack_ctx = StackContext::new(stack_ctx_uid);

        // Insert function arguments into this context
        let ghost arguments = crate::parser::ast::fields_model(args);
        let mut total: i64 = 0;
        let mut i = args.len();
        while i > 0
            invariant
                i <= args.len(),
                stack_ctx.wf(),
                stack_ctx@.uid == stack_ctx_uid,
                frame_of(stack_ctx@) == entry_frame(stack_ctx@.variables),
                0 <= total <= i32::MAX + 1,
                bound_arguments(arguments, i as int) == Ok::<
                    (Seq<(Seq<char>, (i32, TypeModel))>, int),
                    ErrorModel,
                >((stack_ctx@.variables, total as int)),
            decreases i,
        {
            i -= 1;
            assert(arguments[i as int] == (args[i as int].0@, args[i as int].1@));
            proof {
                lemma_bound_error(arguments, i as int);
            }
            let size = Compiler::get_size_of_type(&args[i].1)?;
            if total + size as i64 > i32::MAX as i64 + 1 {
                return Err(Error::Unknown);
            }
            total += size as i64;
            stack_ctx.set_var((-total) as i32, args[i].0.as_str(), &args[i].1);
        }
        proof {
            lemma_bound_error(arguments, 0);
        }
        let ghost variables = stack_ctx@.variables;
        let ghost base = self.assembly();

        self.assembler.push_label(full_fn_name);
        // MOVA sp, bp
        self.assembler.push_instr(
            Instruction::new_registers(Opcode::MOVA, Register::SP, Register::BP),
        );
        // Tag for referencing the stack inc instruction
        let tagged = self.assembler.position();
        self.assembler.new_tag(stack_ctx_uid);
        self.assembler.push_instr(Instruction::new_inc_stack(0));

        // Push a new function context
        let fn_ctx = FnContext::new(ret_type.duplicate(), stack_ctx_uid);
        let ghost entry = stack_ctx@;
        self.stack_ctx_stack.push(stack_ctx);
        self.fn_ctx_stack.push(fn_ctx);
        assert(self.stacks() =~= old(self).stacks().push(entry));
        assert(self.functions() =~= old(self).functions().push((ret_type@, stack_ctx_uid)));
        assert(self.returning() == Some(Returning { ret_type: ret_type@, below: 0 }));
        let ghost started = *self;

        // Compile the functions statement list
        self.compile_stmt_list(stmt_list)?;
        let ghost lowered = statements_code(
            entry_frame(variables),
            Some(Returning { ret_type: ret_type@, below: 0 }),
            statements_model(stmt_list),
            0,
            Seq::empty(),
        )->Ok_0;

        let ghost compiled = *self;
        assert(compiled.advanced_by(&started, lowered));
        assert(compiled.stacks() =~= old(self).stacks().push(with_frame(entry, lowered.frame)));
        assert(compiled.functions() =~= old(self).functions().push((ret_type@, stack_ctx_uid)));

        // Retrieve the stack context
        let depth = self.stack_ctx_stack.len();
        assert(depth == self.stacks().len());
        assert(self.stacks()[depth - 1] == self.stack_ctx_stack[depth - 1]@);
        let stack_ctx = match self.stack_ctx_stack.pop() {
            Some(stack_ctx) => stack_ctx,
            None => {
                return Err(Error::Unknown);
            },
        };
        self.fn_ctx_stack.pop();
        assert(self.stacks() =~= compiled.stacks().drop_last());
        assert(self.functions() =~= compiled.functions().drop_last());
        assert(self.stacks() =~= old(self).stacks());
        assert(self.functions() =~= old(self).functions());
        assert(frame_of(stack_ctx@) == lowered.frame);
        proof {
            lemma_highest(stack_ctx@.observed);
        }

        // Get the biggest stack size
        let stack_size = stack_ctx.stack_extent;
        // Create new stack inc instruction with this size
        let stack_inc_instr = Instruction::new_inc_stack(stack_size as usize);
        let stack_inc_instr_pos = match self.assembler.get_tag(stack_ctx_uid) {
            Some(position) => position,
            None => {
                return Err(Error::Unknown);
            },
        };
        // Replace the tagged instruction with this one
        self.assembler.set_instr(stack_inc_instr_pos, stack_inc_instr)?;
        self.assembler.push_instr(Instruction::new(Opcode::HALT));

        proof {
            let function = function_code(path, decl@)->Ok_0->0;
            let head = seq![
                on_registers(Opcode::MOVA, Register::SP, Register::BP),
                reserve(0),
            ];
            assert(started.assembly().instructions =~= base.instructions + head);
            assert(tagged == base.instructions.len() + 1);
            assert(started.assembly().tags =~= base.tags.push((stack_ctx_uid, tagged)));
            assert(compiled.assembly().instructions =~= base.instructions + head + lowered.code);
            assert(compiled.assembly().tags == started.assembly().tags);
            assert(stack_inc_instr_pos == base.instructions.len() + 1);
            assert(self.assembly().tags =~= base.tags);
            assert(stack_size == highest(lowered.frame.observed));
            assert(self.assembly().instructions =~= base.instructions + function.code);
            assert(self.stacks() =~= old(self).stacks());
            assert(self.functions() =~= old(self).functions());
        }
        Ok(())
    }

    /// This compiler is `before` after the code of `function` was put behind
    /// the instructions under its label, if there is code.
    pub open spec fn holds(&self, before: &Compiler, function: Option<FunctionCode>) -> bool {
        &&& self.modules() == before.modules()
        &&& self.functions() == before.functions()
        &&& self.declared() == before.declared()
        &&& self.stacks() == before.stacks()
        &&& self.assembly() == match function {
            None => before.assembly(),
            Some(function) => AssemblerModel {
                instructions: before.assembly().instructions + function.code,
                labels: with_label(
                    before.assembly().labels,
                    function.label,
                    before.assembly().instructions.len() as usize,
                ),
                tags: before.assembly().tags,
            },
        }
    }

    /// Imports are not compiled yet.
    pub fn compile_decl_import(&mut self, _decl: &Declaration) -> (result: Result<(), Error>)
        ensures
            *final(self) == *old(self),
            result matches Err(error) && error@ == ErrorModel::Unimplemented("Import declaration"),
    {
        Err(Error::Unimplemented("Import declaration"))
    }

    /// Modules are not compiled yet.
    pub fn compile_decl_mod(&mut self, _decl: &Declaration) -> (result: Result<(), Error>)
        ensures
            *final(self) == *old(self),
            result matches Err(error) && error@ == ErrorModel::Unimplemented("Module declaration"),
    {
        Err(Error::Unimplemented("Module declaration"))
    }

    /// Interfaces are not compiled yet.
    pub fn compile_decl_intf(&mut self, _decl: &Declaration) -> (result: Result<(), Error>)
        ensures
            *final(self) == *old(self),
            result matches Err(error) && error@ == ErrorModel::Unimplemented(
                "Interface declaration",
            ),
    {
        Err(Error::Unimplemented("Interface declaration"))
    }

    /// Containers are not compiled yet.
    pub fn compile_decl_cont(&mut self, _decl: &Declaration) -> (result: Result<(), Error>)
        ensures
            *final(self) == *old(self),
            result matches Err(error) && error@ == ErrorModel::Unimplemented(
                "Container declaration",
            ),
    {
        Err(Error::Unimplemented("Container declaration"))
    }

    /// Compiles a declaration. Only functions are compiled.
    pub fn compile_decl(&mut self, decl: &Declaration) -> (result: Result<(), Error>)
        requires
            old(self).wf(),
        ensures
            final(self).wf(),
            result is Ok ==> old(self).used().subset_of(final(self).used()),
            match declaration_code(path_of(old(self).modules()), decl@) {
                Ok(function) => result is Ok && final(self).holds(old(self), function),
                Err(error) => result matches Err(found) && found@ == error,
            },
    {
        match decl {
            Declaration::Function { .. } => self.compile_decl_fn(decl),
            Declaration::Container { .. } => self.compile_decl_cont(decl),
            Declaration::Module { .. } => self.compile_decl_mod(decl),
            Declaration::Interface { .. } => self.compile_decl_intf(decl),
            Declaration::Import(..) => self.compile_decl_import(decl),
            _ => Err(Error::Unknown),
        }
    }

    /// This compiler is `before` after `program` took the place of its
    /// instructions and labels.
    pub open spec fn assembled(&self, before: &Compiler, program: Program) -> bool {
        &&& self.modules() == before.modules()
        &&& self.functions() == before.functions()
        &&& self.declared() == before.declared()
        &&& self.stacks() == before.stacks()
        &&& self.assembly() == (AssemblerModel {
            instructions: program.code,
            labels: program.labels,
            tags: before.assembly().tags,
        })
    }

    /// The instructions and labels of this compiler.
    pub open spec fn program(&self) -> Program {
        Program { code: self.assembly().instructions, labels: self.assembly().labels }
    }

    /// Compiles the declarations of a list, in order.
    #[verifier::loop_isolation(false)]
    pub fn compile_decl_list(&mut self, decl_list: &Vec<Declaration>) -> (result: Result<(), Error>)
        requires
            old(self).wf(),
        ensures
            final(self).wf(),
            result is Ok ==> old(self).used().subset_of(final(self).used()),
            match program_code(
                path_of(old(self).modules()),
                declarations_model(decl_list),
                0,
                old(self).program(),
            ) {
                Ok(program) => result is Ok && final(self).assembled(old(self), program),
                Err(error) => result matches Err(found) && found@ == error,
            },
    {
        let ghost decls = declarations_model(decl_list);
        let ghost path = path_of(self.modules());
        let ghost expected = program_code(path, decls, 0, self.program());
        let mut i: usize = 0;
        while i < decl_list.len()
            invariant
                i <= decl_list.len(),
                self.wf(),
                old(self).used().subset_of(self.used()),
                self.assembled(old(self), self.program()),
                expected == program_code(path, decls, i as int, self.program()),
            decreases decl_list.len() - i,
        {
            assert(decls[i as int] == decl_list[i as int]@);
            self.compile_decl(&decl_list[i])?;
            i += 1;
        }
        Ok(())
    }

    /// What `compile` leaves of a compiler that was `before`: the
    /// declarations are declared, and their code stands behind what was
    /// compiled before. Nothing but the declarations and the compiler as it
    /// was decides the program or the error.
    pub open spec fn compiled_from(
        &self,
        before: &Compiler,
        result: Result<(), Error>,
        decls: Seq<DeclarationModel>,
    ) -> bool {
        match declared_from(before.declared(), decls, 0) {
            Err(_) => result matches Err(found) && found@ == ErrorModel::Unknown,
            Ok(declared) => if declared.stack.len() != 1 {
                result matches Err(found) && found@ == ErrorModel::Unknown
            } else {
                match program_code(path_of(declared.stack), decls, 0, before.program()) {
                    Ok(program) => {
                        &&& result is Ok
                        &&& self.program() == program
                        &&& self.modules() == declared.stack
                        &&& self.declared() == declared
                        &&& self.stacks() == before.stacks()
                        &&& self.functions() == before.functions()
                    },
                    Err(error) => result matches Err(found) && found@ == error,
                }
            },
        }
    }

    /// Declares the declarations of a list and compiles them.
    pub fn compile(&mut self, decl_list: &Vec<Declaration>) -> (result: Result<(), Error>)
        requires
            old(self).wf(),
        ensures
            final(self).wf(),
            final(self).compiled_from(old(self), result, declarations_model(decl_list)),
    {
        match self.declarator.declare(decl_list) {
            Ok(_) => {},
            Err(_) => {
                assert(self.stacks() =~= old(self).stacks());
                return Err(Error::Unknown);
            },
        }
        let root_mod_def = match self.declarator.get_result() {
            Ok((root_mod_def, _)) => root_mod_def,
            Err(_) => {
                assert(self.stacks() =~= old(self).stacks());
                return Err(Error::Unknown);
            },
        };
        assert(self.stacks() =~= old(self).stacks());
        assert(self.functions() =~= old(self).functions());
        let ghost declared = self.declared();
        self.set_root_module(root_mod_def);
        assert(self.modules() =~= declared.stack);
        self.compile_decl_list(decl_list)
    }

    /// Whether `output` is the artifact of what this compiler has compiled:
    /// the bytes of its instructions, the label of each function of the
    /// outermost module by its canonical name, and the offset of each label
    /// that has code.
    pub open spec fn built(&self, output: Output) -> bool {
        &&& output.code@ == flattened(self.assembly().instructions)
        &&& output.foreign_functions@.len() == 0
        &&& output.static_pointers@.len() == 0
        &&& self.modules().len() == 0 ==> output.function_name_map@.len() == 0
            && output.functions@.len() == 0
        &&& self.modules().len() > 0 ==> names_model(&output.function_name_map)
            == function_names(self.modules()[0].functions) && output.functions@ == entry_points(
            self.modules()[0].functions,
            self.assembly(),
            0,
        )
    }

    /// The artifact of what was compiled; the compiler goes on with an empty
    /// assembler.
    #[verifier::loop_isolation(false)]
    #[verifier::rlimit(50)]
    pub fn get_output(&mut self) -> (output: Output)
        requires
            old(self).wf(),
        ensures
            final(self).wf(),
            final(self).kept(old(self)),
            final(self).stacks() == old(self).stacks(),
            final(self).assembly() == (AssemblerModel {
                instructions: Seq::empty(),
                labels: Seq::empty(),
                tags: Seq::empty(),
            }),
            old(self).built(output),
    {
        let mut assembler = Assembler::new();
        std::mem::swap(&mut assembler, &mut self.assembler);
        assert(self.stacks() =~= old(self).stacks());
        assert(self.functions() =~= old(self).functions());
        let ghost assembly = assembler@;
        let (code, labels) = assembler.finalize();
        let mut names: Vec<(String, u64)> = Vec::new();
        let mut offsets: Vec<(u64, usize)> = Vec::new();
        if self.mod_def_stack.len() > 0 {
            let root = &self.mod_def_stack[0];
            assert(self.modules()[0] == root.model());
            let ghost functions = root@.functions;
            let mut i = root.functions.len();
            assert(names_model(&names) =~= function_names(functions).skip(i as int));
            while i > 0
                invariant
                    i <= root.functions.len(),
                    functions == root@.functions,
                    names_model(&names) == function_names(functions).skip(i as int),
                    offsets@ == entry_points(functions, assembly, i as int),
                decreases i,
            {
                i -= 1;
                let function = &root.functions[i];
                assert(functions[i as int] == function@);
                let ghost before = names_model(&names);
                names.insert(0, (function.canon_name.clone(), function.label_uid));
                assert(names_model(&names) =~= seq![(function@.canon_name, function@.label_uid)]
                    + before);
                assert(names_model(&names) =~= function_names(functions).skip(i as int));
                let mut place: usize = 0;
                while place < labels.len() && !crate::util::text::same_text(
                    labels[place].0.as_str(),
                    function.canon_name.as_str(),
                )
                    invariant
                        place <= labels.len(),
                        label_place(assembly.labels, function@.canon_name, place as int)
                            == label_place(assembly.labels, function@.canon_name, 0),
                    decreases labels.len() - place,
                {
                    place += 1;
                }
                if place < labels.len() {
                    offsets.insert(0, (function.label_uid, labels[place].1));
                    assert(offsets@ =~= entry_points(functions, assembly, i as int));
                }
            }
            assert(function_names(functions).skip(0) =~= function_names(functions));
        }
        Output::new().with_code(code).with_functions(offsets).with_function_names(names)
    }
}

/// The texts of a list, in order.
pub open spec fn texts_model(texts: &Vec<String>) -> Seq<Seq<char>> {
    Seq::new(texts.len() as nat, |i: int| texts[i]@)
}

/// The parts of a path between its `::`.
#[verifier::loop_isolation(false)]
pub fn split_path(path: &str) -> (parts: Vec<String>)
    ensures
        texts_model(&parts) == path_parts(path@, 0),
        parts.len() >= 1,
{
    let chars = crate::parser::lexer::characters(path);
    let mut parts: Vec<String> = Vec::new();
    let mut from: usize = 0;
    assert(texts_model(&parts) =~= Seq::empty());
    loop
        invariant
            from <= chars.len(),
            chars@ == path@,
            texts_model(&parts) + path_parts(path@, from as int) == path_parts(path@, 0),
        decreases chars.len() - from,
    {
        let mut end = from;
        while end < chars.len() && !(end + 1 < chars.len() && chars[end] == ':' && chars[end + 1]
            == ':')
            invariant
                from <= end <= chars.len(),
                separator_place(path@, end as int) == separator_place(path@, from as int),
            decreases chars.len() - end,
        {
            end += 1;
        }
        let ghost before = texts_model(&parts);
        let part = String::from_str(path.substring_char(from, end));
        let ghost added = part@;
        parts.push(part);
        assert(texts_model(&parts) =~= before.push(added));
        if end < chars.len() {
            assert(before.push(added) + path_parts(path@, end + 2) =~= before + (seq![added]
                + path_parts(path@, end + 2)));
            from = end + 2;
        } else {
            assert(before.push(added) =~= before + seq![added]);
            return parts;
        }
    }
}

/// The error of the first argument whose type has no size is the error of
/// the sum of the sizes.
pub proof fn lemma_first_size_error(arguments: Seq<(Seq<char>, TypeModel)>, from: int, bad: int)
    requires
        0 <= from <= bad < arguments.len(),
        forall|j: int| from <= j < bad ==> size_of(#[trigger] arguments[j].1) is Ok,
    ensures
        size_of(arguments[bad].1) matches Err(error) ==> arguments_size(arguments, from) == Err::<
            int,
            ErrorModel,
        >(error),
    decreases bad - from,
{
    if from < bad {
        assert(size_of(arguments[from].1) is Ok);
        lemma_first_size_error(arguments, from + 1, bad);
    }
}

/// Compiling the same declarations twice, with compilers that have declared
/// and compiled the same before, gives the same instructions, the same
/// bytes and the same labels, or the same error: the identities that the
/// compilers draw for their stacks decide nothing.
pub proof fn lemma_compile_is_deterministic(
    first: &Compiler,
    first_after: &Compiler,
    first_result: Result<(), Error>,
    second: &Compiler,
    second_after: &Compiler,
    second_result: Result<(), Error>,
    decls: Seq<DeclarationModel>,
)
    requires
        first.declared() == second.declared(),
        first.program() == second.program(),
        first_after.compiled_from(first, first_result, decls),
        second_after.compiled_from(second, second_result, decls),
    ensures
        first_result is Ok <==> second_result is Ok,
        first_result is Ok ==> first_after.program() == second_after.program() && flattened(
            first_after.program().code,
        ) == flattened(second_after.program().code) && first_after.modules()
            == second_after.modules() && first_after.declared() == second_after.declared(),
        first_result matches Err(error) ==> second_result matches Err(other) && error@ == other@,
{
}

/// The stacks hold no fewer bytes than none.
pub proof fn lemma_held_nonnegative(stacks: Seq<StackModel>, uid: u64, top: int)
    requires
        forall|i: int| 0 <= i < stacks.len() ==> well_formed(#[trigger] stacks[i]),
    ensures
        held(stacks, uid, top) >= 0,
    decreases top + 1,
{
    if 0 <= top < stacks.len() {
        lemma_highest(stacks[top].observed);
        if stacks[top].uid != uid {
            lemma_held_nonnegative(stacks, uid, top - 1);
        }
    }
}

/// Stacks that agree below a place hold the same bytes from there down.
pub proof fn lemma_held_same_below(
    first: Seq<StackModel>,
    second: Seq<StackModel>,
    uid: u64,
    top: int,
)
    requires
        first.len() == second.len(),
        top < first.len(),
        forall|i: int| 0 <= i <= top ==> first[i] == second[i],
    ensures
        held(first, uid, top) == held(second, uid, top),
    decreases top + 1,
{
    if 0 <= top < first.len() && first[top].uid != uid {
        lemma_held_same_below(first, second, uid, top - 1);
    }
}

/// When the arguments from a place on cannot be bound, the arguments from
/// any place before it cannot be bound either, for the same reason.
pub proof fn lemma_bound_error(arguments: Seq<(Seq<char>, TypeModel)>, from: int)
    requires
        0 <= from <= arguments.len(),
    ensures
        bound_arguments(arguments, from) matches Err(error) ==> bound_arguments(arguments, 0)
            == Err::<(Seq<(Seq<char>, (i32, TypeModel))>, int), ErrorModel>(error),
    decreases from,
{
    if from > 0 && bound_arguments(arguments, from) is Err {
        assert(bound_arguments(arguments, from - 1) == Err::<
            (Seq<(Seq<char>, (i32, TypeModel))>, int),
            ErrorModel,
        >(bound_arguments(arguments, from)->Err_0));
        lemma_bound_error(arguments, from - 1);
    }
}

/// Copying behind instructions that are there gives these instructions and
/// the copy behind them.
pub proof fn lemma_copied_behind(
    from: int,
    to: int,
    size: int,
    done: int,
    code: Seq<InstructionModel>,
    front: Seq<InstructionModel>,
)
    ensures
        match copied(from, to, size, done, code) {
            Ok(all) => copied(from, to, size, done, front + code) == Ok::<
                Seq<InstructionModel>,
                ErrorModel,
            >(front + all),
            Err(error) => copied(from, to, size, done, front + code) == Err::<
                Seq<InstructionModel>,
                ErrorModel,
            >(error),
        },
    decreases size - done,
{
    if !(done >= size || done < 0) {
        let width = piece(size - done);
        if fits_i16(displacement(from + done, width)) && fits_i16(displacement(to + done, width)) {
            let pair = seq![
                load(Register::R4, from + done, width),
                store(Register::R4, to + done, width),
            ];
            lemma_copied_behind(from, to, size, done + width, code + pair, front);
            assert(front + (code + pair) =~= (front + code) + pair);
        }
    }
}

} // verus!
