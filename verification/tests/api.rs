use mess::api::function::Function;
use mess::api::module::Module;
use mess::api::value::Value;
use mess::api::var_type::Type;

fn function(name: &str, args: Vec<Type>) -> Function {
    Function::new(String::from(name), args, Type::Void)
}

#[test]
fn argument_offsets_count_down_from_the_frame_base() {
    let mut print = function("print", vec![Type::Int, Type::Float, Type::Bool]);
    print.set_arg_sizes(vec![8, 4, 1]);
    assert_eq!(print.get_arg_offset(2), -1);
    assert_eq!(print.get_arg_offset(1), -5);
    assert_eq!(print.get_arg_offset(0), -13);
    assert_eq!(print.get_arg_size(0), 8);
    assert_eq!(print.get_arg_size(1), 4);
    assert_eq!(print.get_arg_size(2), 1);
    assert_eq!(print.arg_offset_of(0), Some(-13));
    assert_eq!(print.arg_offset_of(3), None);
}

#[test]
fn argument_offsets_are_unknown_without_sizes() {
    let print = function("print", vec![Type::Int]);
    assert_eq!(print.arg_offset_of(0), None);
    let mut huge = function("huge", vec![Type::Int, Type::Int]);
    huge.set_arg_sizes(vec![usize::MAX, 8]);
    assert_eq!(huge.arg_offset_of(1), Some(-8));
    assert_eq!(huge.arg_offset_of(0), None);
}

#[test]
fn modules_keep_one_function_per_name() {
    let mut module = Module::new(String::from("io"));
    assert_eq!(module.name, "io");
    module.add_function(function("read", vec![]));
    module.add_function(function("print", vec![Type::Int]));
    module.add_function(function("write", vec![]));
    module.add_function(function("print", vec![Type::Str, Type::Str]));
    assert_eq!(module.function_count(), 3);
    assert_eq!(module.function_at(0).name, "print");
    assert_eq!(module.function_at(0).args, vec![Type::Str, Type::Str]);
    assert_eq!(module.function_at(1).name, "read");
    assert_eq!(module.function_at(2).name, "write");
}

#[test]
fn native_types_compare_by_structure() {
    assert_eq!(Type::Ref(Box::new(Type::Named(String::from("a")))).clone(),
        Type::Ref(Box::new(Type::Named(String::from("a")))));
    assert_ne!(Type::Ref(Box::new(Type::Int)), Type::Int);
    assert_ne!(Type::Named(String::from("a")), Type::Named(String::from("b")));
}

#[test]
fn values_have_sizes() {
    assert_eq!(<i32 as Value>::size(), 4);
    assert_eq!(<bool as Value>::size(), 1);
    assert!(!<i32 as Value>::is_foreign());
}
