use mess::api::function::Function;
use mess::api::var_type::Type as ApiType;
use mess::artifact::Artifact as ArtifactTrait;
use mess::chip8::artifact::Artifact;
use mess::chip8::codegen::compiler::Compiler as Chip8Compiler;
use mess::chip8::codegen::error::Error as Chip8Error;
use mess::chip8::exec::vmcore::Core as Chip8Core;
use mess::codegen::def::{FunctionDef, ModuleDef};
use mess::compiler::Compiler as CompilerTrait;
use mess::vm::adapter::Adapter;
use mess::vm::codegen::compiler::split_path;
use mess::engine::error::Error as EngineError;
use mess::engine::Engine;
use mess::parser::ast::{Declaration, Type};
use mess::parser::error::Error as ParseError;
use mess::parser::Parser;
use mess::vm::codegen::assembler::Assembler;
use mess::vm::codegen::compiler::Compiler;
use mess::vm::codegen::error::Error;
use mess::vm::codegen::instruction::Instruction;
use mess::vm::codegen::output::Output;
use mess::vm::codegen::register::Register;
use mess::vm::exec::is::Opcode;
use mess::vm::exec::vmcore::{Core, CoreError};

fn parse(code: &str) -> Vec<Declaration> {
    Parser::new(code).parse().unwrap()
}

fn compile(code: &str) -> Result<Output, Error> {
    let mut compiler = Compiler::new();
    compiler.compile(&parse(code))?;
    Ok(compiler.get_output())
}

fn word(bytes: &[u8]) -> u64 {
    let mut value = [0u8; 8];
    value.copy_from_slice(bytes);
    u64::from_le_bytes(value)
}

fn run(output: &Output, name: &str, args: &[u64]) -> Result<Core, CoreError> {
    let label = output.get_label(name).unwrap();
    let entry = output.get_offset(label).unwrap();
    let mut machine = Core::new(1024);
    for arg in args {
        machine.push(*arg)?;
    }
    machine.load(output.code.clone(), entry);
    machine.run(10_000)?;
    Ok(machine)
}

#[test]
fn add_leaves_the_sum_in_the_return_register() {
    let output = compile("fun add(a: int, b: int) ~ int { return a + b; }").unwrap();
    assert_eq!(output.function_name_map, vec![(String::from("root::add"), 0)]);
    assert_eq!(output.functions, vec![(0, 0)]);
    assert_eq!(output.get_size(), output.code.len());
    let machine = run(&output, "root::add", &[2, 3]).unwrap();
    assert!(machine.is_halted());
    assert_eq!(machine.reg(Register::R0.into()), Ok(5));
    let stack_pointer = machine.reg(Register::SP.into()).unwrap();
    assert_eq!(stack_pointer, (1 << 61) | (1024 - 16));
}

#[test]
fn arithmetic_runs_on_the_core() {
    let output = compile(
        "fun f(a: int, b: int) ~ int { var x = (a / b) * 3; var y: int = x - 7; return y * y + x; }",
    )
    .unwrap();
    let machine = run(&output, "root::f", &[20, 4]).unwrap();
    assert_eq!(machine.reg(0), Ok(8 * 8 + 15));
    let machine = run(&output, "root::f", &[(-20i64) as u64, 4]).unwrap();
    assert_eq!(machine.reg(0), Ok((22 * 22 - 15) as u64));
    assert_eq!(run(&output, "root::f", &[1, 0]).err(), Some(CoreError::DivisionByZero));
}

#[test]
fn the_reserved_stack_is_the_largest_stack_position() {
    let output = compile("fun add(a: int, b: int) ~ int { return a + b; }").unwrap();
    // MOVA sp, bp
    assert_eq!(&output.code[0..3], &[6, 8, 9]);
    // SUBU_I sp, 24: both operands and their sum lay on the stack at once
    assert_eq!(&output.code[3..5], &[37, 8]);
    assert_eq!(word(&output.code[5..13]), 24);
    let output = compile("fun one() ~ int { return 1; }").unwrap();
    assert_eq!(word(&output.code[5..13]), 8);
    let output = compile("fun none() { }").unwrap();
    assert_eq!(word(&output.code[5..13]), 0);
    assert_eq!(output.code[13], 1);
    let output = compile("fun deep() ~ int { var x = 1; return (x + (x + (x + x))) * 2; }").unwrap();
    assert_eq!(word(&output.code[5..13]), 8 + 8 + 8 + 8 + 8 + 8);
}

#[test]
fn compiling_twice_gives_the_same_bytes() {
    let code = "fun a(x: int) ~ int { var y = x * x; return y + 1; } fun b() ~ int { return 2; }";
    let first = compile(code).unwrap();
    let second = compile(code).unwrap();
    assert_eq!(first.code, second.code);
    assert_eq!(first.function_name_map, second.function_name_map);
    assert_eq!(first.functions, second.functions);
    assert_eq!(
        first.function_name_map,
        vec![(String::from("root::a"), 0), (String::from("root::b"), 1)]
    );
    assert_eq!(first.functions[0], (0, 0));
    assert_eq!(first.functions[1].0, 1);
    assert!(first.functions[1].1 > 0);
    let machine = run(&first, "root::b", &[]).unwrap();
    assert_eq!(machine.reg(0), Ok(2));
    let machine = run(&first, "root::a", &[6]).unwrap();
    assert_eq!(machine.reg(0), Ok(37));
}

#[test]
fn a_variable_takes_the_type_of_its_value() {
    assert!(compile("fun main() { var x: int = (4 / 2) * 3; }").is_ok());
    assert!(compile("fun main() ~ int { var x = (4 / 2) * 3; return x; }").is_ok());
    let output = compile("fun main() ~ int { var x: int = (4 / 2) * 3; return x; }").unwrap();
    assert_eq!(run(&output, "root::main", &[]).unwrap().reg(0), Ok(6));
}

#[test]
fn a_return_of_another_type_is_a_mismatch() {
    let result = compile("fun main() ~ float { return 1; }");
    assert!(matches!(result, Err(Error::TypeMismatch(Type::Float, Type::Int))));
    let result = compile("fun main(x: float) ~ int { var y = x + x; return y; }");
    assert!(matches!(result, Err(Error::TypeMismatch(Type::Int, Type::Float))));
    let result = compile("fun main(x: float) ~ int { return 1 + x; }");
    assert!(matches!(result, Err(Error::TypeMismatch(Type::Int, Type::Float))));
}

#[test]
fn floats_take_the_float_instructions() {
    let output = compile("fun sum(a: float, b: float) ~ float { return a + b; }").unwrap();
    assert!(output.code.contains(&Opcode::ADDF.number()));
    assert_eq!(word(&output.code[5..13]), 12);
    let result = run(&output, "root::sum", &[0, 0]);
    assert_eq!(result.err(), Some(CoreError::Unimplemented(Opcode::ADDF)));
}

#[test]
fn what_is_not_compiled_yet_is_an_error() {
    assert!(matches!(compile("cont C { }"), Err(Error::Unknown)));
    assert!(matches!(compile("fun f() { while x { } }"), Err(Error::Unimplemented("Statement"))));
    assert!(matches!(compile("fun f() { break; }"), Err(Error::Unimplemented("Statement"))));
    assert!(matches!(compile("fun f() { x; }"), Err(Error::Unknown)));
    assert!(matches!(compile("fun f() { 1.5; }"), Err(Error::Unimplemented("Float literal"))));
    assert!(matches!(compile("fun f() { true; }"), Err(Error::Unknown)));
    assert!(matches!(compile("fun f(a: int) { a = 1; }"), Err(Error::Unimplemented("Assign expression"))));
    assert!(matches!(compile("fun f(a: int) { a += 1; }"), Err(Error::Unimplemented("Add assign expression"))));
    assert!(matches!(compile("fun f(a: int) { a -= 1; }"), Err(Error::Unimplemented("Sub assign expression"))));
    assert!(matches!(compile("fun f(a: int) { a *= 1; }"), Err(Error::Unimplemented("Mul assign expression"))));
    assert!(matches!(compile("fun f(a: int) { a /= 1; }"), Err(Error::Unimplemented("Div assign expression"))));
    assert!(matches!(compile("fun f(a: int) { a == 1; }"), Err(Error::Unknown)));
    assert!(matches!(compile("fun f(a: int) { -a; }"), Err(Error::Unknown)));
    assert!(matches!(compile("fun f(a: int) { g(a); }"), Err(Error::Unknown)));
    assert!(matches!(compile("fun f(a: String) { }"), Err(Error::UnknownType(Type::Named(_)))));
    assert!(matches!(
        compile("fun f() ~ bool { return 1 == 1; }"),
        Err(Error::TypeMismatch(Type::Bool, Type::Int))
    ));
    assert!(matches!(compile("fun f(b: bool) ~ bool { return b; }"), Err(Error::Unimplemented(_))));
}

#[test]
fn single_declarations_report_what_they_are() {
    let mut compiler = Compiler::new();
    let decls = parse("cont C { } intf I { } import a; enum E { A }");
    assert!(matches!(compiler.compile_decl(&decls[0]), Err(Error::Unimplemented("Container declaration"))));
    assert!(matches!(compiler.compile_decl(&decls[1]), Err(Error::Unimplemented("Interface declaration"))));
    assert!(matches!(compiler.compile_decl(&decls[2]), Err(Error::Unimplemented("Import declaration"))));
    assert!(matches!(compiler.compile_decl(&decls[3]), Err(Error::Unknown)));
    let module = Declaration::Module { name: String::from("m"), decl_list: vec![] };
    assert!(matches!(compiler.compile_decl(&module), Err(Error::Unimplemented("Module declaration"))));
    assert!(matches!(compiler.compile_decl_fn(&decls[0]), Err(Error::Unknown)));
    // without a module there is no path for the label
    let function = parse("fun f() { }");
    assert!(matches!(compiler.compile_decl_fn(&function[0]), Err(Error::Unknown)));
    // a statement outside a function has no stack
    let body = parse("fun f() { var x = 1; return; 1; }");
    if let Declaration::Function { body: Some(body), .. } = &body[0] {
        assert!(matches!(compiler.compile_stmt(&body[0]), Err(Error::Unknown)));
        assert!(matches!(compiler.compile_stmt_var_decl(&body[0]), Err(Error::Unknown)));
        assert!(matches!(compiler.compile_stmt_return(&body[1]), Err(Error::Unknown)));
        assert!(matches!(compiler.compile_stmt_expr(&body[2]), Err(Error::Unknown)));
        assert!(matches!(compiler.compile_stmt_list(body), Err(Error::Unknown)));
    } else {
        panic!("not a function");
    }
}

#[test]
fn functions_without_a_body_have_a_label_number_but_no_code() {
    let output = compile("ext fun print(x: int); fun main() { }").unwrap();
    assert_eq!(
        output.function_name_map,
        vec![(String::from("root::print"), 0), (String::from("root::main"), 1)]
    );
    assert_eq!(output.functions, vec![(1, 0)]);
    assert_eq!(output.get_label("root::main"), Some(1));
    assert_eq!(output.get_label("main"), None);
    assert_eq!(output.get_offset(0), None);
}

#[test]
fn the_assembler_resolves_labels_and_tags() {
    let mut assembler = Assembler::new();
    assert!(assembler.get_label("start").is_err());
    assembler.push_label(String::from("start"));
    assembler.push_instr(Instruction::new(Opcode::NOOP));
    assembler.new_tag(3);
    assembler.push_instr(Instruction::new_inc_stack(0));
    assembler.new_tag(4);
    assembler.new_tag(3);
    assembler.push_instr(Instruction::new(Opcode::NOOP));
    assembler.push_label(String::from("end"));
    assert_eq!(assembler.position(), 3);
    assert_eq!(assembler.get_label("start").unwrap(), 0);
    assert_eq!(assembler.get_label("end").unwrap(), 3);
    assert_eq!(assembler.get_tag(3), Some(2));
    assert_eq!(assembler.get_tag(3), Some(1));
    assert_eq!(assembler.get_tag(3), None);
    assert_eq!(assembler.get_tag(4), Some(2));
    assert_eq!(assembler.get_tag(5), None);
    assert!(assembler.set_instr(1, Instruction::new_inc_stack(0x0102)).is_ok());
    assert!(assembler.set_instr(3, Instruction::new(Opcode::HALT)).is_err());
    assert_eq!(assembler.get_instr(1).unwrap().opcode, Opcode::SUBU_I);
    assert!(assembler.get_instr(3).is_none());
    let (code, labels) = assembler.finalize();
    assert_eq!(code, vec![0, 37, 8, 2, 1, 0, 0, 0, 0, 0, 0, 0]);
    assert_eq!(labels, vec![(String::from("start"), 0), (String::from("end"), 12)]);
}

#[test]
fn instructions_are_the_opcode_and_the_operands() {
    assert_eq!(Instruction::new(Opcode::RET).encode(), vec![55]);
    assert_eq!(
        Instruction::new_registers(Opcode::MOVA, Register::SP, Register::BP).encode(),
        vec![6, 8, 9]
    );
    assert_eq!(
        Instruction::new_memory(Opcode::MOVI_AR, Register::R0, Register::BP, -8).encode(),
        vec![14, 0, 9, 0xf8, 0xff]
    );
    assert_eq!(
        Instruction::new_immediate(Opcode::LDI, Register::R1, 0x0102_0304_0506_0708).encode(),
        vec![22, 1, 8, 7, 6, 5, 4, 3, 2, 1]
    );
    assert_eq!(Instruction::new_dec_stack(16).encode(), vec![36, 8, 16, 0, 0, 0, 0, 0, 0, 0]);
    assert_eq!(
        Instruction::new(Opcode::LDF).with_u8(2).with_u32(0x4049_0fdb).encode(),
        vec![21, 2, 0xdb, 0x0f, 0x49, 0x40]
    );
    assert_eq!(
        Instruction::new(Opcode::LDI).with_register(Register::R2).with_i64(-2).encode(),
        vec![22, 2, 0xfe, 0xff, 0xff, 0xff, 0xff, 0xff, 0xff, 0xff]
    );
    assert_eq!(Instruction::new(Opcode::JMP).with_i16(-2).operands, vec![0xfe, 0xff]);
    let instruction = Instruction::new_inc_stack(5);
    assert_eq!(instruction.duplicate().encode(), instruction.encode());
}

#[test]
fn opcodes_have_their_numbers() {
    assert_eq!(Opcode::NOOP.number(), 0);
    assert_eq!(Opcode::MOVB.number(), 2);
    assert_eq!(Opcode::MOVF.number(), 4);
    assert_eq!(Opcode::GTEQF.number(), 70);
    assert_eq!(Opcode::from_u8(3), None);
    assert_eq!(Opcode::from_u8(71), None);
    for number in 0..=70u8 {
        if let Some(opcode) = Opcode::from_u8(number) {
            assert_eq!(opcode.number(), number);
        } else {
            assert_eq!(number, 3);
        }
    }
    assert_eq!(Opcode::RET.operand_len(), 0);
    assert_eq!(Opcode::MOVA.operand_len(), 2);
    assert_eq!(Opcode::MOVI_AR.operand_len(), 4);
    assert_eq!(Opcode::SUBU_I.operand_len(), 9);
}

#[test]
fn the_core_reports_what_it_cannot_execute() {
    let mut machine = Core::new(64);
    assert_eq!(machine.step(), Err(CoreError::CodeOverrun));
    machine.load(vec![3], 0);
    assert_eq!(machine.step(), Err(CoreError::InvalidOpcode(3)));
    machine.load(vec![6, 8], 0);
    assert_eq!(machine.step(), Err(CoreError::CodeOverrun));
    machine.load(vec![6, 8, 10], 0);
    assert_eq!(machine.step(), Err(CoreError::InvalidRegister(10)));
    machine.load(vec![14, 0, 0, 0, 0], 0);
    assert_eq!(machine.step(), Err(CoreError::InvalidAddress(0)));
    machine.load(vec![14, 0, 9, 0, 0], 0);
    assert_eq!(machine.step(), Err(CoreError::InvalidAddress((1 << 61) | 64)));
    machine.load(vec![48, 0, 0, 0, 0, 0, 0, 0, 0], 0);
    assert_eq!(machine.step(), Err(CoreError::Unimplemented(Opcode::JMP)));
    machine.load(vec![0, 0, 0], 0);
    assert_eq!(machine.run(2), Err(CoreError::StepLimit));
    assert_eq!(machine.reg(10), Err(CoreError::InvalidRegister(10)));
    assert_eq!(machine.set_reg(10, 1), Err(CoreError::InvalidRegister(10)));
    assert_eq!(machine.set_reg(3, 9), Ok(()));
    assert_eq!(machine.reg(3), Ok(9));
}

#[test]
fn the_core_calls_and_returns() {
    // call 10; halt; (padding); ldi r0, 7; ret
    let mut code = vec![54, 10, 0, 0, 0, 0, 0, 0, 0, 1];
    code.extend_from_slice(&[22, 0, 7, 0, 0, 0, 0, 0, 0, 0, 55]);
    let mut machine = Core::new(64);
    machine.load(code, 0);
    assert_eq!(machine.run(10), Ok(()));
    assert_eq!(machine.reg(0), Ok(7));
    assert!(machine.is_halted());
}

#[test]
fn the_core_stores_and_loads_in_every_width() {
    // ldi r1, 0x1122334455667788; sub sp, 8; movi_ra r1, sp+0; movb_ar r2, sp+0;
    // movf_ar r3, sp+0; movi_ar r5, sp+0; halt
    let mut code = vec![22, 1, 0x88, 0x77, 0x66, 0x55, 0x44, 0x33, 0x22, 0x11];
    code.extend_from_slice(&[37, 8, 8, 0, 0, 0, 0, 0, 0, 0]);
    code.extend_from_slice(&[18, 1, 8, 0, 0]);
    code.extend_from_slice(&[12, 2, 8, 0, 0]);
    code.extend_from_slice(&[13, 3, 8, 0, 0]);
    code.extend_from_slice(&[14, 5, 8, 0, 0]);
    code.push(1);
    let mut machine = Core::new(64);
    machine.load(code, 0);
    assert_eq!(machine.run(10), Ok(()));
    assert_eq!(machine.reg(2), Ok(0x88));
    assert_eq!(machine.reg(3), Ok(0x5566_7788));
    assert_eq!(machine.reg(5), Ok(0x1122_3344_5566_7788));
}

#[test]
fn the_engine_loads_code_piece_by_piece() {
    let mut engine = Engine::new_vm(1024);
    assert!(engine.load_code("fun one() ~ int { return 1; }").is_ok());
    assert!(engine.run_code("fun two() ~ int { return 2; }").is_ok());
    let output = engine.get_output();
    assert_eq!(
        output.function_name_map,
        vec![(String::from("root::one"), 0), (String::from("root::two"), 1)]
    );
    assert_eq!(run(&output, "root::two", &[]).unwrap().reg(0), Ok(2));
    let mut engine = Engine::new_vm(1024);
    assert!(matches!(
        engine.load_code("fun f() { var x: int = 4 3; }"),
        Err(EngineError::ParseError(ParseError::MalformedExpression))
    ));
    assert!(matches!(
        engine.load_code("fun f() ~ float { return 1; }"),
        Err(EngineError::VmCompileError(Error::TypeMismatch(Type::Float, Type::Int)))
    ));
    assert!(matches!(
        engine.load_code("enum E { A }"),
        Err(EngineError::VmCompileError(Error::Unknown))
    ));
}

fn body(code: &str) -> Vec<mess::parser::ast::Statement> {
    match parse(code).remove(0) {
        Declaration::Function { body: Some(body), .. } => body,
        other => panic!("not a function with a body: {:?}", other),
    }
}

#[test]
fn a_declared_variable_is_bound_with_the_type_of_its_value() {
    let mut compiler = Compiler::new();
    let uid = compiler.enter_function(Type::Int);
    let statements = body("fun f() { var x: int = (4 / 2) * 3; var y = x + 1; var z = x; }");
    assert!(compiler.compile_stmt(&statements[0]).is_ok());
    assert!(matches!(compiler.get_expr_type(&mess::parser::ast::Expression::Variable(String::from("x"))), Ok(Type::Int)));
    assert!(compiler.compile_stmt_var_decl(&statements[1]).is_ok());
    assert!(compiler.compile_stmt_list(&vec![statements[2].clone()]).is_ok());
    let stack = compiler.leave_function().unwrap();
    assert_eq!(stack.uid, uid);
    assert_eq!(*stack.get_var("x"), (0, Type::Int));
    assert_eq!(*stack.get_var("y"), (8, Type::Int));
    assert_eq!(*stack.get_var("z"), (16, Type::Int));
    assert_eq!(stack.stack_pos, 24);
    // x, a copy of x, 1 and the sum lay on the stack at once
    assert_eq!(stack.stack_extent, 32);
    assert!(compiler.leave_function().is_none());
}

#[test]
fn expressions_leave_only_their_value_on_the_stack() {
    let mut compiler = Compiler::new();
    compiler.enter_function(Type::Void);
    let statements = body("fun f() { (1 + 2) * (3 - 4); 7; }");
    assert!(compiler.compile_stmt_expr(&statements[0]).is_ok());
    assert!(compiler.compile_stmt(&statements[1]).is_ok());
    let stack = compiler.leave_function().unwrap();
    assert_eq!(stack.stack_pos, 16);
    // the sum, 3, 4 and the difference lay on the stack at once
    assert_eq!(stack.stack_extent, 32);
}

#[test]
fn a_return_gives_the_whole_stack_back() {
    let mut compiler = Compiler::new();
    compiler.enter_function(Type::Int);
    let statements = body("fun f() { var x = 1; return x + x; }");
    assert!(compiler.compile_stmt_list(&statements).is_ok());
    let stack = compiler.leave_function().unwrap();
    assert_eq!(stack.stack_extent, 32);
    assert_eq!(stack.stack_pos, 16 - 32);
    let output = compiler.get_output();
    let length = output.code.len();
    // ADDU_I sp, 32; RET
    assert_eq!(&output.code[length - 11..length - 9], &[36, 8]);
    assert_eq!(word(&output.code[length - 9..length - 1]), 32);
    assert_eq!(output.code[length - 1], 55);
}

#[test]
fn statements_of_another_kind_are_refused() {
    let mut compiler = Compiler::new();
    compiler.enter_function(Type::Int);
    let statements = body("fun f() { var x = 1; return x; x; }");
    assert!(matches!(compiler.compile_stmt_return(&statements[0]), Err(Error::Unknown)));
    assert!(matches!(compiler.compile_stmt_var_decl(&statements[1]), Err(Error::Unknown)));
    assert!(matches!(compiler.compile_stmt_expr(&statements[0]), Err(Error::Unknown)));
}

#[test]
fn arguments_in_registers_are_stored_on_the_stack() {
    let mut compiler = Compiler::new();
    compiler.enter_function(Type::Void);
    let args = vec![
        (String::from("a"), Type::Int),
        (String::from("x"), Type::Float),
        (String::from("b"), Type::Int),
    ];
    assert!(compiler.asm_args_to_stack(&args).is_ok());
    let stack = compiler.leave_function().unwrap();
    assert_eq!(stack.stack_pos, 20);
    assert_eq!(*stack.get_var("a"), (0, Type::Int));
    assert_eq!(*stack.get_var("x"), (8, Type::Float));
    assert_eq!(*stack.get_var("b"), (12, Type::Int));
    let output = compiler.get_output();
    // MOVI_RA r0, [bp - 8]; MOVF_RA r4, [bp - 12]; MOVI_RA r1, [bp - 20]
    assert_eq!(
        output.code,
        vec![18, 0, 9, 0xf8, 0xff, 17, 4, 9, 0xf4, 0xff, 18, 1, 9, 0xec, 0xff]
    );
}

#[test]
fn only_four_arguments_of_a_kind_come_in_registers() {
    let ints = |count: usize| -> Vec<(String, Type)> {
        (0..count).map(|i| (format!("a{}", i), Type::Int)).collect()
    };
    let mut compiler = Compiler::new();
    assert!(matches!(compiler.asm_args_to_stack(&ints(1)), Err(Error::Unknown)));
    compiler.enter_function(Type::Void);
    assert!(compiler.asm_args_to_stack(&ints(4)).is_ok());
    assert!(matches!(compiler.asm_args_to_stack(&ints(5)), Err(Error::Unknown)));
    let bools = vec![(String::from("b"), Type::Bool)];
    assert!(matches!(
        compiler.asm_args_to_stack(&bools),
        Err(Error::Unimplemented("NOT IMPLEMENTED"))
    ));
    let texts = vec![(String::from("a"), Type::Int), (String::from("s"), Type::Str)];
    assert!(matches!(compiler.asm_args_to_stack(&texts), Err(Error::UnknownType(Type::Str))));
}

#[test]
fn names_are_resolved_through_the_modules() {
    let decls = parse("fun f() { } fun g() { } fun h() { }");
    let mut inner = ModuleDef::new("root::a::", "b");
    inner.add_function(FunctionDef::from_decl(3, "root::a::b::", &decls[2]).unwrap());
    let mut outer = ModuleDef::new("root::", "a");
    outer.add_function(FunctionDef::from_decl(2, "root::a::", &decls[1]).unwrap());
    outer.add_module(inner);
    let mut root = ModuleDef::new("", "root");
    root.add_function(FunctionDef::from_decl(1, "root::", &decls[0]).unwrap());
    root.add_module(outer);
    let mut compiler = Compiler::new();
    assert!(compiler.resolve_fn("f").is_err());
    compiler.set_root_module(root);
    assert_eq!(compiler.resolve_fn("f").unwrap().label_uid, 1);
    assert!(compiler.resolve_fn("g").is_err());
    // the first part only chooses where the path begins
    assert_eq!(compiler.resolve_fn("a::f").unwrap().label_uid, 1);
    assert_eq!(compiler.resolve_fn("x::a::g").unwrap().label_uid, 2);
    assert_eq!(compiler.resolve_fn("x::a::b::h").unwrap().label_uid, 3);
    assert_eq!(compiler.resolve_fn("x::none::a::g").unwrap().label_uid, 2);
    assert!(compiler.resolve_fn("x::a::h").is_err());
    assert!(compiler.resolve_mod("a").is_err());
    assert!(compiler.resolve_cont("a").is_err());
}

#[test]
fn paths_are_split_at_their_separators() {
    assert_eq!(split_path("a"), vec!["a"]);
    assert_eq!(split_path(""), vec![""]);
    assert_eq!(split_path("a::b::c"), vec!["a", "b", "c"]);
    assert_eq!(split_path("::a::"), vec!["", "a", ""]);
    assert_eq!(split_path(":::"), vec!["", ":"]);
    assert_eq!(split_path("a:b"), vec!["a:b"]);
}

#[test]
fn errors_have_names() {
    assert_eq!(Error::Unknown.to_string(), "Unknown");
    assert_eq!(Error::TypeMismatch(Type::Int, Type::Float).to_string(), "TypeMismatch");
    assert_eq!(Error::UnknownType(Type::Void).to_string(), "UnknownType");
    assert_eq!(Error::Unimplemented("Statement").to_string(), "Unimplemented: Statement");
    assert_eq!(ParseError::ExpectedFn.to_string(), "ExpectedFn");
    assert_eq!(ParseError::Unimplemented("mod decl").to_string(), "Unimplemented: mod decl");
    assert_eq!(
        EngineError::from_parse(ParseError::MalformedImport).to_string(),
        "ParseError: MalformedImport"
    );
    assert_eq!(
        EngineError::from_compile(Error::Unimplemented("Statement")).to_string(),
        "VmCompileError: Unimplemented: Statement"
    );
    assert_eq!(EngineError::from_core(CoreError::StepLimit).to_string(), "VmCoreError");
    assert!(matches!(Error::from(()), Error::Unknown));
}

#[test]
fn the_adapter_hands_results_to_the_core() {
    let function = Function::new(String::from("answer"), vec![], ApiType::Int);
    let mut machine = Core::new(64);
    {
        let mut adapter = Adapter::new(&function, &mut machine);
        adapter.ret(&[42, 1, 0, 0, 0, 0, 0, 0]);
    }
    assert_eq!(machine.reg(0), Ok(42 + 256));
}

#[test]
fn the_chip8_back_end_compiles_nothing_yet() {
    let mut compiler = Chip8Compiler::default();
    assert!(matches!(
        compiler.compile(&vec![]),
        Err(Chip8Error::Unimplemented(what)) if what == "Not implemented yet"
    ));
    assert!(matches!(
        compiler.register_module(mess::api::module::Module::new(String::from("m"))),
        Err(Chip8Error::Unknown)
    ));
    let _artifact: Artifact = compiler.get_output();
    assert!(Artifact::supports_aot());
    assert_eq!(Chip8Error::Unknown.to_string(), "Unknown");
    assert_eq!(
        Chip8Error::Unimplemented(String::from("x")).to_string(),
        "Unimplemented: x"
    );
    let machine = Chip8Core::default();
    assert!(machine.memory.iter().all(|byte| *byte == 0));
    assert!(machine.registers.iter().all(|byte| *byte == 0));
}

#[test]
fn an_artifact_holds_what_it_is_given() {
    let output = Output::new();
    assert_eq!(output.get_size(), 0);
    assert!(output.function_name_map.is_empty());
    let output = output
        .with_code(vec![1, 2, 3])
        .with_functions(vec![(7, 1)])
        .with_function_names(vec![(String::from("root::f"), 7)])
        .with_static_pointers(vec![(0, (4, 8))]);
    assert_eq!(output.get_size(), 3);
    assert_eq!(output.code, vec![1, 2, 3]);
    assert_eq!(output.get_label("root::f"), Some(7));
    assert_eq!(output.get_offset(7), Some(1));
    assert_eq!(output.static_pointers, vec![(0, (4, 8))]);
    assert!(output.foreign_functions.is_empty());
}

#[test]
fn building_gives_the_bytes_of_all_instructions() {
    let mut assembler = Assembler::new();
    assert!(Assembler::new().build().is_empty());
    assembler.push_instr(Instruction::new_registers(Opcode::MOVA, Register::SP, Register::BP));
    assembler.push_instr(Instruction::new(Opcode::HALT));
    assert_eq!(assembler.build(), vec![6, 8, 9, 1]);
}
