use mess::api::function::Function;
use mess::api::module::Module;
use mess::api::var_type::Type as ApiType;
use mess::codegen::ctx::{FnContext, StackContext};
use mess::codegen::decl::Declarator;
use mess::codegen::def::enums::{EnumDef, EnumVariantDef};
use mess::codegen::def::{FunctionDef, ModuleDef};
use mess::parser::ast::{Declaration, Type};
use mess::parser::Parser;
use mess::util::uid::UIDGenerator;

fn parse(code: &str) -> Vec<Declaration> {
    Parser::new(code).parse().unwrap()
}

fn module(name: &str, decl_list: Vec<Declaration>) -> Declaration {
    Declaration::Module { name: String::from(name), decl_list }
}

#[test]
fn stack_extent_is_the_largest_position() {
    let mut stack = StackContext::new(7);
    assert_eq!((stack.uid, stack.stack_pos, stack.stack_extent), (7, 0, 0));
    stack.inc_stack(8);
    stack.inc_stack(4);
    assert_eq!((stack.stack_pos, stack.stack_extent), (12, 12));
    stack.dec_stack(8);
    assert_eq!((stack.stack_pos, stack.stack_extent), (4, 12));
    stack.inc_stack(1);
    assert_eq!((stack.stack_pos, stack.stack_extent), (5, 12));
    stack.dec_stack(20);
    assert_eq!((stack.stack_pos, stack.stack_extent), (-15, 12));
    stack.move_to(13);
    assert_eq!((stack.stack_pos, stack.stack_extent), (13, 13));
}

#[test]
fn variables_are_bound_by_name() {
    let mut stack = StackContext::new(1);
    stack.set_var(-8, "a", &Type::Int);
    stack.set_var(0, "b", &Type::Float);
    assert_eq!(*stack.get_var("a"), (-8, Type::Int));
    assert_eq!(*stack.get_var("b"), (0, Type::Float));
    stack.set_var(16, "a", &Type::Bool);
    assert_eq!(*stack.get_var("a"), (16, Type::Bool));
    assert_eq!(stack.find_var("a"), Some(&(16, Type::Bool)));
    assert_eq!(stack.find_var("c"), None);
    assert_eq!(stack.variable_positions.len(), 2);
}

#[test]
fn extended_stacks_see_the_variables_from_their_extent() {
    let mut stack = StackContext::new(1);
    stack.inc_stack(24);
    stack.set_var(0, "a", &Type::Int);
    stack.set_var(16, "b", &Type::Int);
    assert!(StackContext::can_extend_from(&stack));
    let inner = StackContext::extend_from(2, &stack);
    assert_eq!((inner.uid, inner.stack_pos, inner.stack_extent), (2, 0, 0));
    assert_eq!(*inner.get_var("a"), (24, Type::Int));
    assert_eq!(*inner.get_var("b"), (8, Type::Int));
    let mut far = StackContext::new(3);
    far.set_var(i32::MIN, "a", &Type::Int);
    far.inc_stack(1);
    assert!(!StackContext::can_extend_from(&far));
}

#[test]
fn function_contexts_hold_their_parts() {
    let context = FnContext::new(Type::Float, 9);
    assert_eq!(context.ret_type, Type::Float);
    assert_eq!(context.stack_ctx_uid, 9);
}

#[test]
fn functions_get_labels_in_the_order_of_their_declarations() {
    let decls = parse("fun a() { } fun b(x: int) ~ float; fun c() { }");
    let mut declarator = Declarator::default();
    assert!(declarator.declare(&decls).is_ok());
    let (root, next) = declarator.get_result().unwrap();
    assert_eq!(next, 3);
    assert_eq!(root.name, "root");
    assert_eq!(root.canon_name, "root");
    assert_eq!(
        root.get_function_list().unwrap(),
        vec![
            (0, String::from("root::a")),
            (1, String::from("root::b")),
            (2, String::from("root::c")),
        ]
    );
    let b = root.get_function("b").unwrap();
    assert_eq!(b.label_uid, 1);
    assert_eq!(b.name, "b");
    assert_eq!(b.returns, Type::Float);
    assert_eq!(b.arguments, vec![(String::from("x"), Type::Int)]);
    assert!(root.has_function("c"));
    assert!(!root.has_function("d"));
    assert!(root.get_function("d").is_err());
}

#[test]
fn a_declaration_of_the_same_name_replaces_the_function() {
    let decls = parse("fun a() { } fun a(x: int) { }");
    let mut declarator = Declarator::default();
    assert!(declarator.declare(&decls).is_ok());
    let (root, next) = declarator.get_result().unwrap();
    assert_eq!(next, 2);
    assert_eq!(root.get_function_list().unwrap(), vec![(1, String::from("root::a"))]);
}

#[test]
fn modules_are_declared_inside_their_parents() {
    let mut decls = parse("fun top() { }");
    decls.push(module("outer", vec![
        module("inner", parse("fun deep() { }")),
        parse("fun mid() { }").remove(0),
    ]));
    let mut declarator = Declarator::default();
    assert!(declarator.declare(&decls).is_ok());
    let (root, next) = declarator.get_result().unwrap();
    assert_eq!(next, 3);
    assert!(root.has_module("outer"));
    assert!(!root.has_module("inner"));
    let outer = root.get_module("outer").unwrap();
    assert_eq!(outer.canon_name, "root::outer");
    assert_eq!(outer.get_function("mid").unwrap().canon_name, "root::outer::mid");
    assert_eq!(outer.get_function("mid").unwrap().label_uid, 2);
    let inner = outer.get_module("inner").unwrap();
    assert_eq!(inner.canon_name, "root::outer::inner");
    assert_eq!(inner.get_function("deep").unwrap().canon_name, "root::outer::inner::deep");
    assert_eq!(inner.get_function("deep").unwrap().label_uid, 1);
    assert!(root.get_module("none").is_err());
}

#[test]
fn only_functions_and_modules_can_be_declared() {
    assert!(Declarator::default().declare(&parse("cont C { }")).is_err());
    assert!(Declarator::default().declare(&parse("enum E { A }")).is_err());
    assert!(Declarator::default().declare(&parse("intf I { }")).is_err());
    assert!(Declarator::default().declare(&parse("import a;")).is_err());
    let mut declarator = Declarator::new(ModuleDef::new("", "main"));
    assert!(declarator.declare(&vec![]).is_ok());
    let (root, next) = declarator.get_result().unwrap();
    assert_eq!((root.name.as_str(), next), ("main", 0));
}

#[test]
fn module_definitions_keep_one_entry_per_name() {
    let mut module = ModuleDef::new("root::", "m");
    assert_eq!(module.canon_name, "root::m");
    let decls = parse("fun f() { } fun f() ~ int { } fun g() { }");
    module.add_function(FunctionDef::from_decl(4, "root::m::", &decls[0]).unwrap());
    module.add_function(FunctionDef::from_decl(5, "root::m::", &decls[1]).unwrap());
    module.add_function(FunctionDef::from_decl(6, "root::m::", &decls[2]).unwrap());
    assert_eq!(
        module.get_function_list().unwrap(),
        vec![(5, String::from("root::m::f")), (6, String::from("root::m::g"))]
    );
    module.add_module(ModuleDef::new("root::m::", "a"));
    let mut second = ModuleDef::new("root::m::", "a");
    second.add_function(FunctionDef::from_decl(7, "root::m::a::", &decls[2]).unwrap());
    module.add_module(second);
    assert_eq!(module.modules.len(), 1);
    assert!(module.get_module("a").unwrap().has_function("g"));
    let copy = module.clone();
    assert_eq!(copy.get_function_list().unwrap(), module.get_function_list().unwrap());
    assert!(copy.get_module("a").unwrap().has_function("g"));
    assert!(FunctionDef::from_decl(1, "", &parse("enum E { A }")[0]).is_err());
}

#[test]
fn native_functions_get_fresh_labels() {
    let mut api_module = Module::new(String::from("io"));
    api_module.add_function(Function::new(
        String::from("print"),
        vec![ApiType::Int, ApiType::Ref(Box::new(ApiType::Str))],
        ApiType::Void,
    ));
    api_module.add_function(Function::new(String::from("read"), vec![], ApiType::Float));
    let mut generator = UIDGenerator::new();
    let taken = generator.generate();
    let module = ModuleDef::from_api(&mut generator, "root::", api_module);
    assert_eq!(module.name, "io");
    assert_eq!(module.canon_name, "root::io");
    let print = module.get_function("print").unwrap();
    let read = module.get_function("read").unwrap();
    assert_eq!(print.canon_name, "root::print");
    assert_eq!(print.returns, Type::Void);
    assert_eq!(
        print.arguments,
        vec![
            (String::new(), Type::Int),
            (String::new(), Type::Ref(Box::new(Type::Str))),
        ]
    );
    assert_eq!(read.returns, Type::Float);
    assert_ne!(print.label_uid, read.label_uid);
    assert_ne!(print.label_uid, taken);
    assert_ne!(read.label_uid, taken);
}

#[test]
fn generated_numbers_are_unique() {
    let mut generator = UIDGenerator::new();
    let mut seen = std::collections::HashSet::new();
    for _ in 0..1000 {
        assert!(seen.insert(generator.generate()));
    }
}

#[test]
fn claimed_numbers_step_over_the_taken_ones() {
    let mut generator = UIDGenerator::new();
    assert_eq!(generator.claim(5), 5);
    assert_eq!(generator.claim(5), 6);
    assert_eq!(generator.claim(5), 7);
    assert_eq!(generator.claim(6), 8);
    assert_eq!(generator.claim(u64::MAX), u64::MAX);
    assert_eq!(generator.claim(u64::MAX), 0);
    assert_eq!(generator.claim(u64::MAX), 1);
}

#[test]
fn enum_definitions_take_the_variants_over() {
    let decl = parse("enum Test { A, B(int, float), C { x: bool } }").remove(0);
    let def = EnumDef::from(decl);
    assert_eq!(def.name, "Test");
    assert_eq!(def.variants.len(), 3);
    assert!(matches!(&def.variants[0], EnumVariantDef::Empty { name } if name == "A"));
    match &def.variants[1] {
        EnumVariantDef::Tuple { name, types } => {
            assert_eq!(name, "B");
            assert_eq!(*types, vec![Type::Int, Type::Float]);
        }
        other => panic!("not a tuple variant: {:?}", other),
    }
    match &def.variants[2] {
        EnumVariantDef::Cont { name, members } => {
            assert_eq!(name, "C");
            assert_eq!(*members, vec![(String::from("x"), Type::Bool)]);
        }
        other => panic!("not a container variant: {:?}", other),
    }
}
