//! What the code generator emits, as functions from a syntax tree and the
//! frame of the function to instructions and the frame after them.
//!
//! A value at the frame offset `o` that is `n` bytes wide lies in memory
//! from `n + o` bytes below the frame base up to `o` bytes below it. The
//! arguments of a function lie above the frame base and have negative
//! offsets, the last one nearest to the base. The compiler is proved to
//! emit exactly the instructions of these functions.

use super::error::ErrorModel;
use super::instruction::{
    on_immediate, on_memory, on_registers, plain, release, reserve, InstructionModel,
};
use super::register::Register;
use crate::codegen::ctx::{has_variable, highest, variable_of, with_variable, StackModel};
use crate::codegen::def::fun::FunctionDefModel;
use crate::codegen::def::module::{def_place, module_place, ModuleDefModel};
use crate::parser::ast::{DeclarationModel, ExpressionModel, Operator, StatementModel, TypeModel};
use crate::vm::exec::is::Opcode;
use vstd::prelude::*;

verus! {

/// Whether `::` stands at `at`.
pub open spec fn separator_at(text: Seq<char>, at: int) -> bool {
    0 <= at && at + 2 <= text.len() && text[at] == ':' && text[at + 1] == ':'
}

/// The place of the first `::` from `from` on, or the length of the text
/// when there is none.
pub open spec fn separator_place(text: Seq<char>, from: int) -> int
    decreases text.len() - from,
{
    if 0 <= from < text.len() {
        if separator_at(text, from) {
            from
        } else {
            separator_place(text, from + 1)
        }
    } else {
        text.len() as int
    }
}

/// The parts of a path between its `::`, from `from` on.
pub open spec fn path_parts(text: Seq<char>, from: int) -> Seq<Seq<char>>
    decreases text.len() - from,
{
    let end = separator_place(text, from);
    if 0 <= from <= end && end + 2 <= text.len() {
        seq![text.subrange(from, end)] + path_parts(text, end + 2)
    } else if 0 <= from <= text.len() {
        seq![text.subrange(from, text.len() as int)]
    } else {
        seq![Seq::empty()]
    }
}

/// The module that the parts of a path from the part `part` on lead to
/// from `module`, the last part left out: a part that names a module inside
/// leads into it, any other part is passed over.
pub open spec fn descended(module: ModuleDefModel, parts: Seq<Seq<char>>, part: int) -> ModuleDefModel
    decreases parts.len() - part,
{
    if 1 <= part < parts.len() - 1 {
        let place = module_place(module.modules, parts[part], 0);
        if place < module.modules.len() {
            descended(module.modules[place], parts, part + 1)
        } else {
            descended(module, parts, part + 1)
        }
    } else {
        module
    }
}

/// The function of a module that has the given name.
pub open spec fn function_named(module: ModuleDefModel, name: Seq<char>) -> Option<
    FunctionDefModel,
> {
    let place = def_place(module.functions, name, 0);
    if place < module.functions.len() {
        Some(module.functions[place])
    } else {
        None
    }
}

/// The function that a name stands for among the modules that are being
/// compiled, the innermost last. A plain name is looked up in the innermost
/// module. A path begins at the innermost module if its first part names a
/// module inside it, else at the outermost; its middle parts lead into
/// modules, and its last part names the function.
pub open spec fn resolved(modules: Seq<ModuleDefModel>, name: Seq<char>) -> Option<
    FunctionDefModel,
> {
    if modules.len() == 0 {
        None
    } else {
        let parts = path_parts(name, 0);
        if parts.len() > 1 {
            let start = if module_place(modules.last().modules, parts[0], 0)
                < modules.last().modules.len() {
                modules.last()
            } else {
                modules[0]
            };
            function_named(descended(start, parts, 1), parts.last())
        } else {
            function_named(modules.last(), name)
        }
    }
}

/// The stack of the function that is being compiled.
pub struct Frame {
    pub stack_pos: int,
    pub stack_extent: int,
    pub variables: Seq<(Seq<char>, (i32, TypeModel))>,
    pub observed: Seq<int>,
}

/// The instructions of a construct and the frame after them.
pub struct Lowered {
    pub code: Seq<InstructionModel>,
    pub frame: Frame,
}

/// The frame of a stack context.
pub open spec fn frame_of(stack: StackModel) -> Frame {
    Frame {
        stack_pos: stack.stack_pos,
        stack_extent: stack.stack_extent,
        variables: stack.variables,
        observed: stack.observed,
    }
}

/// The frame after its top moved to `stack_pos`.
pub open spec fn shifted(frame: Frame, stack_pos: int) -> Frame {
    Frame {
        stack_pos,
        stack_extent: if stack_pos > frame.stack_extent {
            stack_pos
        } else {
            frame.stack_extent
        },
        observed: frame.observed.push(stack_pos),
        variables: frame.variables,
    }
}

/// Whether a number is a 32-bit integer.
pub open spec fn fits_i32(value: int) -> bool {
    i32::MIN <= value <= i32::MAX
}

/// Whether a number is a 16-bit integer.
pub open spec fn fits_i16(value: int) -> bool {
    i16::MIN <= value <= i16::MAX
}

/// The number of bytes that a value of a type takes on the stack.
pub open spec fn size_of(value_type: TypeModel) -> Result<int, ErrorModel> {
    match value_type {
        TypeModel::Int => Ok(8),
        TypeModel::Float => Ok(4),
        TypeModel::Ref(_) => Ok(8),
        TypeModel::Bool => Ok(1),
        _ => Err(ErrorModel::UnknownType(value_type)),
    }
}

/// The type of an expression among the given variables. The operands of a
/// binary operator have the same type.
pub open spec fn type_of(
    variables: Seq<(Seq<char>, (i32, TypeModel))>,
    expression: ExpressionModel,
) -> Result<TypeModel, ErrorModel>
    decreases expression,
{
    match expression {
        ExpressionModel::IntLiteral(_) => Ok(TypeModel::Int),
        ExpressionModel::BoolLiteral(_) => Ok(TypeModel::Bool),
        ExpressionModel::FloatLiteral(_) => Ok(TypeModel::Float),
        ExpressionModel::Variable(name) => if has_variable(variables, name) {
            Ok(variable_of(variables, name).1)
        } else {
            Err(ErrorModel::Unknown)
        },
        ExpressionModel::StringLiteral(_) => Ok(TypeModel::Ref(Box::new(TypeModel::Str))),
        ExpressionModel::Condition { yield_expr, .. } => match yield_expr {
            Some(yielded) => type_of(variables, *yielded),
            None => Ok(TypeModel::Void),
        },
        ExpressionModel::Unary(op, operand) => match op {
            Operator::Not => Ok(TypeModel::Bool),
            Operator::Ref => match type_of(variables, *operand) {
                Ok(operand_type) => Ok(TypeModel::Ref(Box::new(operand_type))),
                Err(error) => Err(error),
            },
            Operator::Deref => match type_of(variables, *operand) {
                Ok(TypeModel::Ref(inner)) => Ok(*inner),
                Ok(_) => Err(ErrorModel::Unknown),
                Err(error) => Err(error),
            },
            _ => type_of(variables, *operand),
        },
        ExpressionModel::Binary(lhs, _, rhs) => match type_of(variables, *lhs) {
            Err(error) => Err(error),
            Ok(lhs_type) => match type_of(variables, *rhs) {
                Err(error) => Err(error),
                Ok(rhs_type) => if rhs_type != lhs_type {
                    Err(ErrorModel::TypeMismatch(lhs_type, rhs_type))
                } else {
                    Ok(lhs_type)
                },
            },
        },
        ExpressionModel::Call(_, _) => Err(ErrorModel::Unknown),
    }
}

/// Where the value at the frame offset `offset` that is `width` bytes wide
/// begins, counted from the frame base.
pub open spec fn displacement(offset: int, width: int) -> int {
    -(offset + width)
}

/// The opcode that loads a value of `width` bytes from memory.
pub open spec fn load_opcode(width: int) -> Opcode {
    if width == 8 {
        Opcode::MOVI_AR
    } else if width == 4 {
        Opcode::MOVF_AR
    } else {
        Opcode::MOVB_AR
    }
}

/// The opcode that stores a value of `width` bytes to memory.
pub open spec fn store_opcode(width: int) -> Opcode {
    if width == 8 {
        Opcode::MOVI_RA
    } else if width == 4 {
        Opcode::MOVF_RA
    } else {
        Opcode::MOVB_RA
    }
}

/// The instruction that loads the value at a frame offset into a register.
pub open spec fn load(register: Register, offset: int, width: int) -> InstructionModel {
    on_memory(load_opcode(width), register, Register::BP, displacement(offset, width) as i16)
}

/// The instruction that stores a register to the value at a frame offset.
pub open spec fn store(register: Register, offset: int, width: int) -> InstructionModel {
    on_memory(store_opcode(width), register, Register::BP, displacement(offset, width) as i16)
}

/// The width of the piece that is copied next when `left` bytes are left:
/// eight bytes, four bytes or one byte.
pub open spec fn piece(left: int) -> int {
    if left >= 8 {
        8
    } else if left >= 4 {
        4
    } else {
        1
    }
}

/// The instructions in `code` and behind them those that copy the `size`
/// bytes at the frame offset `from` to the frame offset `to`, from the byte
/// at `done` on, in pieces through the register `R4`. An error when a piece
/// lies too far from the frame base.
pub open spec fn copied(
    from: int,
    to: int,
    size: int,
    done: int,
    code: Seq<InstructionModel>,
) -> Result<Seq<InstructionModel>, ErrorModel>
    decreases size - done,
{
    if done >= size || done < 0 {
        Ok(code)
    } else {
        let width = piece(size - done);
        if !fits_i16(displacement(from + done, width)) || !fits_i16(displacement(to + done, width)) {
            Err(ErrorModel::Unknown)
        } else {
            copied(
                from,
                to,
                size,
                done + width,
                code + seq![
                    load(Register::R4, from + done, width),
                    store(Register::R4, to + done, width),
                ],
            )
        }
    }
}

/// How deep the binary operators of an expression are nested.
pub open spec fn nesting(expression: ExpressionModel) -> nat
    decreases expression,
{
    match expression {
        ExpressionModel::Binary(lhs, _, rhs) => if nesting(*lhs) > nesting(*rhs) {
            nesting(*lhs) + 1
        } else {
            nesting(*rhs) + 1
        },
        _ => 0,
    }
}

/// The opcode of an arithmetic operator on integers.
pub open spec fn integer_opcode(op: Operator) -> Opcode {
    match op {
        Operator::Plus => Opcode::ADDI,
        Operator::Minus => Opcode::SUBI,
        Operator::Times => Opcode::MULI,
        _ => Opcode::DIVI,
    }
}

/// The opcode of an arithmetic operator on floats.
pub open spec fn float_opcode(op: Operator) -> Opcode {
    match op {
        Operator::Plus => Opcode::ADDF,
        Operator::Minus => Opcode::SUBF,
        Operator::Times => Opcode::MULF,
        _ => Opcode::DIVF,
    }
}

/// The instructions that load the operands at `lhs_pos` and `rhs_pos` into
/// `R0` and `R1`, combine them in `R0` and store `R0` at `pos`.
pub open spec fn combined(op: Operator, width: int, lhs_pos: int, rhs_pos: int, pos: int) -> Seq<
    InstructionModel,
> {
    seq![
        load(Register::R0, lhs_pos, width),
        load(Register::R1, rhs_pos, width),
        on_registers(
            if width == 8 {
                integer_opcode(op)
            } else {
                float_opcode(op)
            },
            Register::R1,
            Register::R0,
        ),
        store(Register::R0, pos, width),
    ]
}

/// Whether an operator is one of `+`, `-`, `*` and `/`.
pub open spec fn is_arithmetic(op: Operator) -> bool {
    op == Operator::Plus || op == Operator::Minus || op == Operator::Times || op
        == Operator::Divide
}

/// The instructions that put the value of an expression on top of the
/// stack, and the frame after them. What the operands of an operator left
/// below the value is closed up, so that the stack has grown by the size of
/// the value alone.
pub open spec fn expression_code(frame: Frame, expression: ExpressionModel) -> Result<
    Lowered,
    ErrorModel,
>
    decreases expression, 2int,
{
    match type_of(frame.variables, expression) {
        Err(error) => Err(error),
        Ok(expression_type) => match size_of(expression_type) {
            Err(error) => Err(error),
            Ok(size) => match value_code(frame, expression) {
                Err(error) => Err(error),
                Ok(value) => {
                    let start = frame.stack_pos;
                    let end = value.frame.stack_pos;
                    if end - start > size {
                        match copied(end - size, start, size, 0, value.code) {
                            Err(error) => Err(error),
                            Ok(copy) => if !fits_i32(start + size) {
                                Err(ErrorModel::Unknown)
                            } else {
                                Ok(
                                    Lowered {
                                        code: copy,
                                        frame: shifted(value.frame, start + size),
                                    },
                                )
                            },
                        }
                    } else {
                        Ok(value)
                    }
                },
            },
        },
    }
}

/// The instructions of an arithmetic operator on two operands: both are
/// computed one behind the other on the stack, loaded into registers and
/// combined, and the result is stored on top of them. Operands that are
/// integers take the integer instruction, floats the float instruction.
pub open spec fn arithmetic_code(frame: Frame, expression: ExpressionModel) -> Result<
    Lowered,
    ErrorModel,
>
    decreases expression, 0int,
{
    match expression {
        ExpressionModel::Binary(lhs, op, rhs) => {
            match type_of(frame.variables, *lhs) {
                Err(error) => Err(error),
                Ok(operand_type) => {
                    let width: int = if operand_type == TypeModel::Int {
                        8
                    } else {
                        4
                    };
                    if operand_type != TypeModel::Int && operand_type != TypeModel::Float {
                        Err(ErrorModel::Unknown)
                    } else {
                        match expression_code(frame, *lhs) {
                            Err(error) => Err(error),
                            Ok(left) => match expression_code(left.frame, *rhs) {
                                Err(error) => Err(error),
                                Ok(right) => {
                                    let lhs_pos = frame.stack_pos;
                                    let rhs_pos = left.frame.stack_pos;
                                    let pos = right.frame.stack_pos;
                                    if !fits_i32(pos + width) || !fits_i16(
                                        displacement(lhs_pos, width),
                                    ) || !fits_i16(displacement(rhs_pos, width)) || !fits_i16(
                                        displacement(pos, width),
                                    ) {
                                        Err(ErrorModel::Unknown)
                                    } else {
                                        Ok(
                                            Lowered {
                                                code: left.code + right.code + combined(
                                                    op,
                                                    width,
                                                    lhs_pos,
                                                    rhs_pos,
                                                    pos,
                                                ),
                                                frame: shifted(right.frame, pos + width),
                                            },
                                        )
                                    }
                                },
                            },
                        }
                    }
                },
            }
        },
        _ => Err(ErrorModel::Unknown),
    }
}

/// The instructions that compute an expression of a known type, before the
/// stack is closed up.
pub open spec fn value_code(frame: Frame, expression: ExpressionModel) -> Result<Lowered, ErrorModel>
    decreases expression, 1int,
{
    match expression {
        ExpressionModel::Variable(name) => if !has_variable(frame.variables, name) {
            Err(ErrorModel::Unknown)
        } else {
            let variable = variable_of(frame.variables, name);
            match size_of(variable.1) {
                Err(error) => Err(error),
                Ok(size) => if !fits_i32(frame.stack_pos + size) {
                    Err(ErrorModel::Unknown)
                } else {
                    match copied(variable.0 as int, frame.stack_pos, size, 0, Seq::empty()) {
                        Err(error) => Err(error),
                        Ok(copy) => Ok(
                            Lowered { code: copy, frame: shifted(frame, frame.stack_pos + size) },
                        ),
                    }
                },
            }
        },
        ExpressionModel::IntLiteral(value) => if !fits_i32(frame.stack_pos + 8) || !fits_i16(
            displacement(frame.stack_pos, 8),
        ) {
            Err(ErrorModel::Unknown)
        } else {
            Ok(
                Lowered {
                    code: seq![
                        on_immediate(Opcode::LDI, Register::R0, value as u64),
                        store(Register::R0, frame.stack_pos, 8),
                    ],
                    frame: shifted(frame, frame.stack_pos + 8),
                },
            )
        },
        ExpressionModel::FloatLiteral(_) => Err(ErrorModel::Unimplemented("Float literal")),
        ExpressionModel::Condition { .. } => Err(
            ErrorModel::Unimplemented("Condition expr compilation"),
        ),
        ExpressionModel::Call(_, _) => Err(ErrorModel::Unimplemented("Call expression")),
        ExpressionModel::Unary(op, _) => match op {
            Operator::Ref => Err(ErrorModel::Unimplemented("Ref expression")),
            Operator::Deref => Err(ErrorModel::Unimplemented("Deref expression")),
            _ => Err(ErrorModel::Unknown),
        },
        ExpressionModel::Binary(lhs, op, rhs) => if is_arithmetic(op) {
            arithmetic_code(frame, expression)
        } else {
            match op {
                Operator::Assign => Err(ErrorModel::Unimplemented("Assign expression")),
                Operator::AddAssign => Err(ErrorModel::Unimplemented("Add assign expression")),
                Operator::SubAssign => Err(ErrorModel::Unimplemented("Sub assign expression")),
                Operator::MulAssign => Err(ErrorModel::Unimplemented("Mul assign expression")),
                Operator::DivAssign => Err(ErrorModel::Unimplemented("Div assign expression")),
                _ => Err(ErrorModel::Unknown),
            }
        },
        _ => Err(ErrorModel::Unknown),
    }
}

/// The sum of the sizes of the arguments from `from` on, or the error of the
/// first argument whose type has no size.
pub open spec fn arguments_size(arguments: Seq<(Seq<char>, TypeModel)>, from: int) -> Result<
    int,
    ErrorModel,
>
    decreases arguments.len() - from,
{
    if 0 <= from < arguments.len() {
        match size_of(arguments[from].1) {
            Err(error) => Err(error),
            Ok(size) => match arguments_size(arguments, from + 1) {
                Err(error) => Err(error),
                Ok(rest) => Ok(size + rest),
            },
        }
    } else {
        Ok(0)
    }
}

/// The register that hands over the integer argument with the given
/// number.
pub open spec fn integer_register(number: int) -> Register {
    if number == 0 {
        Register::R0
    } else if number == 1 {
        Register::R1
    } else if number == 2 {
        Register::R2
    } else {
        Register::R3
    }
}

/// The register that hands over the float argument with the given number.
pub open spec fn float_register(number: int) -> Register {
    if number == 0 {
        Register::R4
    } else if number == 1 {
        Register::R5
    } else if number == 2 {
        Register::R6
    } else {
        Register::R7
    }
}

/// How far the arguments that come in registers are stored: the offset of
/// the next argument and the numbers of the next integer and float
/// registers.
pub struct Passing {
    pub offset: int,
    pub integers: int,
    pub floats: int,
}

/// The instructions in `lowered` and behind them those that store the
/// arguments from `from` on, which come in registers, on the stack, and the
/// frame in which each argument is bound to its place. Only four integers
/// and four floats come in registers.
pub open spec fn passed(
    arguments: Seq<(Seq<char>, TypeModel)>,
    from: int,
    passing: Passing,
    lowered: Lowered,
) -> Result<Lowered, ErrorModel>
    decreases arguments.len() - from,
{
    if 0 <= from < arguments.len() {
        let name = arguments[from].0;
        match arguments[from].1 {
            TypeModel::Int => if passing.integers >= 4 || !fits_i16(
                displacement(passing.offset, 8),
            ) {
                Err(ErrorModel::Unknown)
            } else {
                passed(
                    arguments,
                    from + 1,
                    Passing {
                        offset: passing.offset + 8,
                        integers: passing.integers + 1,
                        floats: passing.floats,
                    },
                    Lowered {
                        code: lowered.code + seq![
                            store(integer_register(passing.integers), passing.offset, 8),
                        ],
                        frame: Frame {
                            variables: with_variable(
                                lowered.frame.variables,
                                name,
                                passing.offset as i32,
                                TypeModel::Int,
                            ),
                            ..lowered.frame
                        },
                    },
                )
            },
            TypeModel::Float => if passing.floats >= 4 || !fits_i16(
                displacement(passing.offset, 4),
            ) {
                Err(ErrorModel::Unknown)
            } else {
                passed(
                    arguments,
                    from + 1,
                    Passing {
                        offset: passing.offset + 4,
                        integers: passing.integers,
                        floats: passing.floats + 1,
                    },
                    Lowered {
                        code: lowered.code + seq![
                            store(float_register(passing.floats), passing.offset, 4),
                        ],
                        frame: Frame {
                            variables: with_variable(
                                lowered.frame.variables,
                                name,
                                passing.offset as i32,
                                TypeModel::Float,
                            ),
                            ..lowered.frame
                        },
                    },
                )
            },
            _ => Err(ErrorModel::Unimplemented("NOT IMPLEMENTED")),
        }
    } else {
        Ok(lowered)
    }
}

/// The instructions that store the arguments of a function, which come in
/// registers, on the stack: the stack grows by the sizes of the arguments,
/// and each argument is stored at the next free offset from 0 on.
pub open spec fn arguments_code(frame: Frame, arguments: Seq<(Seq<char>, TypeModel)>) -> Result<
    Lowered,
    ErrorModel,
> {
    match arguments_size(arguments, 0) {
        Err(error) => Err(error),
        Ok(size) => if !fits_i32(frame.stack_pos + size) {
            Err(ErrorModel::Unknown)
        } else {
            passed(
                arguments,
                0,
                Passing { offset: 0, integers: 0, floats: 0 },
                Lowered { code: Seq::empty(), frame: shifted(frame, frame.stack_pos + size) },
            )
        },
    }
}

/// The function that is being compiled, as a `return` sees it: its return
/// type, and the bytes that the stacks between the stack on top and the
/// stack of the function hold.
pub struct Returning {
    pub ret_type: TypeModel,
    pub below: int,
}

/// The instruction that gives back the bytes of the stack on top and the
/// `below` bytes of the stacks below it, and the frame after it.
pub open spec fn given_back(frame: Frame, below: int) -> Result<Lowered, ErrorModel> {
    let pop_size = frame.stack_extent + below;
    if pop_size < 0 || !fits_i32(pop_size) || !fits_i32(frame.stack_pos - pop_size) {
        Err(ErrorModel::Unknown)
    } else {
        Ok(
            Lowered {
                code: seq![release(pop_size as u64)],
                frame: shifted(frame, frame.stack_pos - pop_size),
            },
        )
    }
}

/// The instructions of a `return` with the value `value`: the value is
/// computed and loaded into `R0`, the stack is given back, and the function
/// is left.
pub open spec fn return_code(frame: Frame, returning: Returning, value: Option<ExpressionModel>) -> Result<
    Lowered,
    ErrorModel,
> {
    let computed = match value {
        None => Ok(Lowered { code: Seq::empty(), frame }),
        Some(expression) => match type_of(frame.variables, expression) {
            Err(error) => Err(error),
            Ok(expression_type) => if returning.ret_type != expression_type {
                Err(ErrorModel::TypeMismatch(returning.ret_type, expression_type))
            } else {
                match expression_code(frame, expression) {
                    Err(error) => Err(error),
                    Ok(lowered) => if expression_type == TypeModel::Int {
                        if !fits_i16(displacement(frame.stack_pos, 8)) {
                            Err(ErrorModel::Unknown)
                        } else {
                            Ok(
                                Lowered {
                                    code: lowered.code + seq![load(Register::R0, frame.stack_pos, 8)],
                                    frame: lowered.frame,
                                },
                            )
                        }
                    } else if expression_type == TypeModel::Float {
                        if !fits_i16(displacement(frame.stack_pos, 4)) {
                            Err(ErrorModel::Unknown)
                        } else {
                            Ok(
                                Lowered {
                                    code: lowered.code + seq![load(Register::R0, frame.stack_pos, 4)],
                                    frame: lowered.frame,
                                },
                            )
                        }
                    } else {
                        Err(ErrorModel::Unimplemented("Other return types not implemented yet!"))
                    },
                }
            },
        },
    };
    match computed {
        Err(error) => Err(error),
        Ok(lowered) => {
            let pop_size = lowered.frame.stack_extent + returning.below;
            if pop_size < 0 || !fits_i32(pop_size) || !fits_i32(lowered.frame.stack_pos - pop_size) {
                Err(ErrorModel::Unknown)
            } else {
                Ok(
                    Lowered {
                        code: lowered.code + seq![release(pop_size as u64), plain(Opcode::RET)],
                        frame: shifted(lowered.frame, lowered.frame.stack_pos - pop_size),
                    },
                )
            }
        },
    }
}

/// The instructions of a statement and the frame after them. Only variable
/// declarations, expression statements and `return` are compiled.
pub open spec fn statement_code(
    frame: Frame,
    returning: Option<Returning>,
    statement: StatementModel,
) -> Result<Lowered, ErrorModel> {
    match statement {
        StatementModel::VarDeclaration { name, var_type, expr } => match type_of(
            frame.variables,
            expr,
        ) {
            Err(error) => Err(error),
            Ok(expression_type) => {
                let declared = if var_type == TypeModel::Auto {
                    expression_type
                } else {
                    var_type
                };
                match size_of(declared) {
                    Err(error) => Err(error),
                    Ok(size) => match expression_code(frame, expr) {
                        Err(error) => Err(error),
                        Ok(value) => if !fits_i32(value.frame.stack_pos - size) {
                            Err(ErrorModel::Unknown)
                        } else {
                            Ok(
                                Lowered {
                                    code: value.code,
                                    frame: Frame {
                                        variables: with_variable(
                                            value.frame.variables,
                                            name,
                                            (value.frame.stack_pos - size) as i32,
                                            declared,
                                        ),
                                        ..value.frame
                                    },
                                },
                            )
                        },
                    },
                }
            },
        },
        StatementModel::ExpressionStmt(expression) => expression_code(frame, expression),
        StatementModel::Return(value) => match returning {
            None => Err(ErrorModel::Unknown),
            Some(returning) => return_code(frame, returning, value),
        },
        _ => Err(ErrorModel::Unimplemented("Statement")),
    }
}

/// The instructions in `code` and behind them those of the statements from
/// `from` on, and the frame after them.
pub open spec fn statements_code(
    frame: Frame,
    returning: Option<Returning>,
    statements: Seq<StatementModel>,
    from: int,
    code: Seq<InstructionModel>,
) -> Result<Lowered, ErrorModel>
    decreases statements.len() - from,
{
    if 0 <= from < statements.len() {
        match statement_code(frame, returning, statements[from]) {
            Err(error) => Err(error),
            Ok(first) => statements_code(
                first.frame,
                returning,
                statements,
                from + 1,
                code + first.code,
            ),
        }
    } else {
        Ok(Lowered { code, frame })
    }
}

/// The variables that the arguments from `from` on are bound to: each lies
/// below the frame base by its size and the sizes of the arguments behind
/// it. With them, the sum of these sizes.
pub open spec fn bound_arguments(arguments: Seq<(Seq<char>, TypeModel)>, from: int) -> Result<
    (Seq<(Seq<char>, (i32, TypeModel))>, int),
    ErrorModel,
>
    decreases arguments.len() - from,
{
    if 0 <= from < arguments.len() {
        match bound_arguments(arguments, from + 1) {
            Err(error) => Err(error),
            Ok((variables, total)) => match size_of(arguments[from].1) {
                Err(error) => Err(error),
                Ok(size) => if !fits_i32(-(total + size)) {
                    Err(ErrorModel::Unknown)
                } else {
                    Ok(
                        (
                            with_variable(
                                variables,
                                arguments[from].0,
                                (-(total + size)) as i32,
                                arguments[from].1,
                            ),
                            total + size,
                        ),
                    )
                },
            },
        }
    } else {
        Ok((Seq::empty(), 0))
    }
}

/// The frame of a function before its first statement.
pub open spec fn entry_frame(variables: Seq<(Seq<char>, (i32, TypeModel))>) -> Frame {
    Frame { stack_pos: 0, stack_extent: 0, variables, observed: seq![0int] }
}

/// The code of a function: the name of its label, its instructions, and
/// its frame after the last statement.
pub struct FunctionCode {
    pub label: Seq<char>,
    pub code: Seq<InstructionModel>,
    pub frame: Frame,
}

/// The code of a function declaration under the module path `path`, or
/// nothing for a function without a body. The code sets the frame base,
/// reserves as many bytes of stack as the stack of the function ever
/// reached, runs the statements and halts.
pub open spec fn function_code(path: Seq<char>, decl: DeclarationModel) -> Result<
    Option<FunctionCode>,
    ErrorModel,
> {
    match decl {
        DeclarationModel::Function { name, returns: return_type, arguments, body, .. } => match body {
            None => Ok(None),
            Some(statements) => if path.len() == 0 {
                Err(ErrorModel::Unknown)
            } else {
                match bound_arguments(arguments, 0) {
                    Err(error) => Err(error),
                    Ok((variables, _)) => match statements_code(
                        entry_frame(variables),
                        Some(Returning { ret_type: return_type, below: 0 }),
                        statements,
                        0,
                        Seq::empty(),
                    ) {
                        Err(error) => Err(error),
                        Ok(lowered) => if lowered.frame.stack_extent < 0 {
                            Err(ErrorModel::Unknown)
                        } else {
                            Ok(
                                Some(
                                    FunctionCode {
                                        label: path + name,
                                        code: seq![
                                            on_registers(Opcode::MOVA, Register::SP, Register::BP),
                                            reserve(lowered.frame.stack_extent as u64),
                                        ] + lowered.code + seq![plain(Opcode::HALT)],
                                        frame: lowered.frame,
                                    },
                                ),
                            )
                        },
                    },
                }
            },
        },
        _ => Err(ErrorModel::Unknown),
    }
}

/// Where the instruction that reserves the stack of a function stands in
/// the code of the function.
pub open spec fn reserve_position() -> int {
    1
}

/// What a declaration adds to the code: the instructions and the label of a
/// function with a body, nothing for one without. Other declarations are
/// not compiled.
pub open spec fn declaration_code(path: Seq<char>, decl: DeclarationModel) -> Result<
    Option<FunctionCode>,
    ErrorModel,
> {
    match decl {
        DeclarationModel::Function { .. } => function_code(path, decl),
        DeclarationModel::Container { .. } => Err(
            ErrorModel::Unimplemented("Container declaration"),
        ),
        DeclarationModel::Module { .. } => Err(ErrorModel::Unimplemented("Module declaration")),
        DeclarationModel::Interface { .. } => Err(
            ErrorModel::Unimplemented("Interface declaration"),
        ),
        DeclarationModel::Import(_) => Err(ErrorModel::Unimplemented("Import declaration")),
        _ => Err(ErrorModel::Unknown),
    }
}

/// The code of a program: all instructions, and the position in them that
/// each label names.
pub struct Program {
    pub code: Seq<InstructionModel>,
    pub labels: Seq<(Seq<char>, usize)>,
}

/// The program after the declarations from `from` on are compiled behind
/// it.
pub open spec fn program_code(
    path: Seq<char>,
    decls: Seq<DeclarationModel>,
    from: int,
    program: Program,
) -> Result<Program, ErrorModel>
    decreases decls.len() - from,
{
    if 0 <= from < decls.len() {
        match declaration_code(path, decls[from]) {
            Err(error) => Err(error),
            Ok(None) => program_code(path, decls, from + 1, program),
            Ok(Some(function)) => program_code(
                path,
                decls,
                from + 1,
                Program {
                    code: program.code + function.code,
                    labels: super::assembler::with_label(
                        program.labels,
                        function.label,
                        program.code.len() as usize,
                    ),
                },
            ),
        }
    } else {
        Ok(program)
    }
}

/// The bytes that the stacks from the one at `top` down to the stack with
/// the identity `uid` hold, or down to the lowest when none has it.
pub open spec fn held(stacks: Seq<StackModel>, uid: u64, top: int) -> int
    decreases top + 1,
{
    if 0 <= top < stacks.len() {
        if stacks[top].uid == uid {
            stacks[top].stack_extent
        } else {
            stacks[top].stack_extent + held(stacks, uid, top - 1)
        }
    } else {
        0
    }
}

/// The bytes that a `return` gives back besides those of the stack on top.
pub open spec fn held_below(stacks: Seq<StackModel>, uid: u64) -> int {
    if stacks.len() > 0 && stacks.last().uid == uid {
        0
    } else {
        held(stacks, uid, stacks.len() - 2)
    }
}

/// The stack context with the given frame.
pub open spec fn with_frame(stack: StackModel, frame: Frame) -> StackModel {
    StackModel {
        stack_pos: frame.stack_pos,
        stack_extent: frame.stack_extent,
        variables: frame.variables,
        observed: frame.observed,
        uid: stack.uid,
    }
}

/// A frame whose extent is the largest position that its top ever had.
pub open spec fn tracked_extent(frame: Frame) -> bool {
    frame.observed.len() > 0 && frame.observed.last() == frame.stack_pos && frame.stack_extent
        == highest(frame.observed)
}

} // verus!

verus! {

/// Moving the top of a frame keeps the extent the largest position that
/// the top ever had.
pub proof fn lemma_shifted_tracked(frame: Frame, stack_pos: int)
    requires
        tracked_extent(frame),
    ensures
        tracked_extent(shifted(frame, stack_pos)),
{
    assert(frame.observed.push(stack_pos).drop_last() =~= frame.observed);
}

/// The frame after an expression has the largest position of its top as
/// its extent, if the frame before the expression had.
pub proof fn lemma_expression_tracked(frame: Frame, expression: ExpressionModel)
    requires
        tracked_extent(frame),
        expression_code(frame, expression) is Ok,
    ensures
        tracked_extent(expression_code(frame, expression)->Ok_0.frame),
    decreases expression, 2int,
{
    let value = value_code(frame, expression)->Ok_0;
    lemma_value_tracked(frame, expression);
    let size = size_of(type_of(frame.variables, expression)->Ok_0)->Ok_0;
    if value.frame.stack_pos - frame.stack_pos > size {
        lemma_shifted_tracked(value.frame, frame.stack_pos + size);
    }
}

/// The frame after the value of an expression is computed has the largest
/// position of its top as its extent, if the frame before had.
pub proof fn lemma_value_tracked(frame: Frame, expression: ExpressionModel)
    requires
        tracked_extent(frame),
        value_code(frame, expression) is Ok,
    ensures
        tracked_extent(value_code(frame, expression)->Ok_0.frame),
    decreases expression, 1int,
{
    match expression {
        ExpressionModel::Variable(name) => {
            let size = size_of(variable_of(frame.variables, name).1)->Ok_0;
            lemma_shifted_tracked(frame, frame.stack_pos + size);
        },
        ExpressionModel::IntLiteral(_) => {
            lemma_shifted_tracked(frame, frame.stack_pos + 8);
        },
        ExpressionModel::Binary(lhs, op, rhs) => {
            let operand_type = type_of(frame.variables, *lhs)->Ok_0;
            let width: int = if operand_type == TypeModel::Int {
                8
            } else {
                4
            };
            lemma_expression_tracked(frame, *lhs);
            let left = expression_code(frame, *lhs)->Ok_0;
            lemma_expression_tracked(left.frame, *rhs);
            let right = expression_code(left.frame, *rhs)->Ok_0;
            lemma_shifted_tracked(right.frame, right.frame.stack_pos + width);
        },
        _ => {},
    }
}

/// The frame after a statement has the largest position of its top as its
/// extent, if the frame before the statement had.
pub proof fn lemma_statement_tracked(
    frame: Frame,
    returning: Option<Returning>,
    statement: StatementModel,
)
    requires
        tracked_extent(frame),
        statement_code(frame, returning, statement) is Ok,
    ensures
        tracked_extent(statement_code(frame, returning, statement)->Ok_0.frame),
{
    match statement {
        StatementModel::VarDeclaration { name, var_type, expr } => {
            lemma_expression_tracked(frame, expr);
        },
        StatementModel::ExpressionStmt(expression) => {
            lemma_expression_tracked(frame, expression);
        },
        StatementModel::Return(value) => {
            let after = match value {
                None => frame,
                Some(expression) => {
                    lemma_expression_tracked(frame, expression);
                    expression_code(frame, expression)->Ok_0.frame
                },
            };
            let pop_size = after.stack_extent + returning->0.below;
            lemma_shifted_tracked(after, after.stack_pos - pop_size);
        },
        _ => {},
    }
}

/// The frame after statements has the largest position of its top as its
/// extent, if the frame before the statements had.
pub proof fn lemma_statements_tracked(
    frame: Frame,
    returning: Option<Returning>,
    statements: Seq<StatementModel>,
    from: int,
    code: Seq<InstructionModel>,
)
    requires
        tracked_extent(frame),
        statements_code(frame, returning, statements, from, code) is Ok,
    ensures
        tracked_extent(statements_code(frame, returning, statements, from, code)->Ok_0.frame),
    decreases statements.len() - from,
{
    if 0 <= from < statements.len() {
        lemma_statement_tracked(frame, returning, statements[from]);
        let first = statement_code(frame, returning, statements[from])->Ok_0;
        lemma_statements_tracked(first.frame, returning, statements, from + 1, code + first.code);
    }
}

/// The stack that a compiled function reserves is the largest position that
/// the top of its stack had while the function was compiled: the second
/// instruction of the function reserves exactly that many bytes.
pub proof fn lemma_reserved_stack_is_highest_position(path: Seq<char>, decl: DeclarationModel)
    requires
        function_code(path, decl) matches Ok(Some(_)),
    ensures
        function_code(path, decl)->Ok_0->0.code[reserve_position()] == reserve(
            highest(function_code(path, decl)->Ok_0->0.frame.observed) as u64,
        ),
        forall|i: int|
            0 <= i < function_code(path, decl)->Ok_0->0.frame.observed.len() ==> function_code(
                path,
                decl,
            )->Ok_0->0.frame.observed[i] <= highest(
                function_code(path, decl)->Ok_0->0.frame.observed,
            ),
{
    match decl {
        DeclarationModel::Function { name, returns: return_type, arguments, body, .. } => {
            let variables = bound_arguments(arguments, 0)->Ok_0.0;
            let entry = entry_frame(variables);
            assert(entry.observed.drop_last() =~= Seq::<int>::empty());
            assert(highest(Seq::<int>::empty()) == 0);
            assert(tracked_extent(entry));
            lemma_statements_tracked(
                entry,
                Some(Returning { ret_type: return_type, below: 0 }),
                body->0,
                0,
                Seq::empty(),
            );
            crate::codegen::ctx::lemma_highest(function_code(path, decl)->Ok_0->0.frame.observed);
        },
        _ => {},
    }
}

} // verus!
