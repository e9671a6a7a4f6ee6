use stackjit::commands::{
    add, divide, modulo, multiply, pop_stack_index, push_b, push_c, push_d, push_e, push_f,
    push_stack_index, push_value, subtract, udivide, umodulo, while_loop,
};
use stackjit::commands::push_a as push_first_arg;
use stackjit::function::{Function, FunctionCreateError};
use stackjit::SymbolCounter;

#[test]
fn push_a() {
    let mut counter = SymbolCounter::new();

    println!("{:?}", push_first_arg());
    println!("{:?}", push_b());
    println!("{:?}", push_c());
    println!("{:?}", push_d());
    println!("{:?}", push_e());
    println!("{:?}", push_f());

    println!("{:?}", add());
    println!("{:?}", subtract());
    println!("{:?}", multiply());
    println!("{:?}", divide());
    println!("{:?}", modulo());
    println!("{:?}", udivide());
    println!("{:?}", umodulo());

    println!("{:?}", push_value(-45));
    println!("{:?}", push_value(45));

    println!("{:?}", push_stack_index(3));
    println!("{:?}", push_stack_index(-3));
    println!("{:?}", pop_stack_index(3));
    println!("{:?}", pop_stack_index(-3));

    println!("{:?}", while_loop(&vec![], &mut counter));

    if let Ok(command) = while_loop(&vec![], &mut counter) {
        let code_and_data = command.code.add(&command.data);
        let mut line = String::new();
        for byte in code_and_data.assemble().unwrap() {
            line.push_str(&format!("{:02x} ", byte));
        }
        println!("{}", line);
    }
}

#[test]
fn lib_it_works() {
    assert_eq!(2 + 2, 4);
}

#[test]
fn raw_code_it_works() {
    let mut line = String::new();
    for byte in stackjit::raw_code::push_arg_code(0) {
        line.push_str(&format!("{:02x} ", byte));
    }
    println!("{}", line);
    let mut line = String::new();
    for byte in stackjit::raw_code::function_header_code() {
        line.push_str(&format!("{:02x} ", byte));
    }
    println!("{}", line);
    assert_eq!(2 + 2, 4);
}

#[test]
fn add_3() {
    let f = Function::new(vec![push_first_arg(), push_b(), push_c(), add(), add()]).unwrap();
    // header + three one-byte pushes + two adds + footer
    let mut expected: Vec<u8> = vec![0xf3, 0x0f, 0x1e, 0xfa, 0x55, 0x48, 0x89, 0xe5];
    expected.extend_from_slice(&[0x57, 0x56, 0x52]);
    expected.extend_from_slice(&[0x59, 0x58, 0x48, 0x01, 0xc8, 0x50]);
    expected.extend_from_slice(&[0x59, 0x58, 0x48, 0x01, 0xc8, 0x50]);
    expected.extend_from_slice(&[0x58, 0x31, 0xd2, 0x48, 0x89, 0xec, 0x5d, 0xc3]);
    assert_eq!(f.code, expected);
}

#[test]
fn pow() {
    let mut counter = SymbolCounter::new();
    let body = vec![
        push_first_arg(),
        push_stack_index(-1),
        multiply(),
        pop_stack_index(-1),
        push_value(1),
        subtract(),
    ];
    let f = Function::new(vec![
        push_value(1),
        push_b(),
        while_loop(&body, &mut counter).unwrap(),
        push_stack_index(-1),
    ])
    .unwrap();
    assert!(f.code.len() > 0);
}

#[test]
fn parse_pow() {
    let mut counter = SymbolCounter::new();
    let f = Function::parse("1 b { a p-1 * s-1 1 - } p-1", &mut counter).unwrap();

    // The same function, composed by hand, assembles to the same bytes:
    // the loop's local symbols differ in identity but resolve to the same
    // displacements.
    let mut counter2 = SymbolCounter::new();
    let body = vec![
        push_first_arg(),
        push_stack_index(-1),
        multiply(),
        pop_stack_index(-1),
        push_value(1),
        subtract(),
    ];
    let g = Function::new(vec![
        push_value(1),
        push_b(),
        while_loop(&body, &mut counter2).unwrap(),
        push_stack_index(-1),
    ])
    .unwrap();
    assert_eq!(f.code, g.code);
}

#[test]
fn parse_divide_by_zero_program() {
    let mut counter = SymbolCounter::new();
    let f = Function::parse("a 0 /", &mut counter).unwrap();
    assert!(f.code.len() > 0);
}

#[test]
fn parse_min_divide_programs() {
    let mut counter = SymbolCounter::new();
    assert!(Function::parse("a b /", &mut counter).is_ok());
    assert!(Function::parse("a b %", &mut counter).is_ok());
}

#[test]
fn parse_three_way_sum() {
    let mut counter = SymbolCounter::new();
    let f = Function::parse("a b c + +", &mut counter).unwrap();
    let g = Function::new(vec![push_first_arg(), push_b(), push_c(), add(), add()]).unwrap();
    assert_eq!(f.code, g.code);
}

#[test]
fn empty_command_list_is_refused() {
    let r = Function::new(vec![]);
    assert!(matches!(r, Err(FunctionCreateError::EmptyResult)));
}

#[test]
fn loop_that_grows_the_stack_is_refused() {
    let mut counter = SymbolCounter::new();
    let r = Function::parse("{ a }", &mut counter);
    assert!(matches!(r, Err(FunctionCreateError::LoopChangedStackDepth)));
}

#[test]
fn while_loop_succeeds_iff_body_is_depth_neutral() {
    let mut counter = SymbolCounter::new();
    // net zero: push then pop
    let balanced = vec![push_first_arg(), pop_stack_index(-1)];
    assert!(while_loop(&balanced, &mut counter).is_ok());
    // net +1: a bare push
    let pushing = vec![push_first_arg()];
    assert!(matches!(
        while_loop(&pushing, &mut counter),
        Err(FunctionCreateError::LoopChangedStackDepth)
    ));
    // net -1: a bare pop
    let popping = vec![pop_stack_index(-1)];
    assert!(matches!(
        while_loop(&popping, &mut counter),
        Err(FunctionCreateError::LoopChangedStackDepth)
    ));
}

#[test]
fn stack_underflow_is_refused() {
    let r = Function::new(vec![add()]);
    assert!(matches!(r, Err(FunctionCreateError::StackUnderflow)));
}

#[test]
fn insufficient_depth_is_refused() {
    // push_stack_index(3) needs four values on the stack but finds one.
    let r = Function::new(vec![push_first_arg(), push_stack_index(3)]);
    assert!(matches!(r, Err(FunctionCreateError::InsufficientDepth)));
}

#[test]
fn parse_rejects_malformed_programs() {
    let mut counter = SymbolCounter::new();
    assert!(matches!(
        Function::parse("a x", &mut counter),
        Err(FunctionCreateError::UnrecognizedCommand)
    ));
    assert!(matches!(
        Function::parse("a }", &mut counter),
        Err(FunctionCreateError::UnrecognizedCommand)
    ));
    assert!(matches!(
        Function::parse("{ a s-1", &mut counter),
        Err(FunctionCreateError::UnterminatedLoop)
    ));
    assert!(matches!(
        Function::parse("99999999999999999999999999", &mut counter),
        Err(FunctionCreateError::IntegerLiteralTooLarge)
    ));
    assert!(matches!(
        Function::parse("l99999999999", &mut counter),
        Err(FunctionCreateError::StackIndexOutOfRange)
    ));
    assert!(matches!(
        Function::parse("a l x", &mut counter),
        Err(FunctionCreateError::NotAnInteger)
    ));
    assert!(matches!(
        Function::parse("s-99999999999999999999", &mut counter),
        Err(FunctionCreateError::IntegerLiteralTooLarge)
    ));
}

#[test]
fn parse_push_value_bytes() {
    let mut counter = SymbolCounter::new();
    let f = Function::parse("45", &mut counter).unwrap();
    let mut expected: Vec<u8> = vec![0xf3, 0x0f, 0x1e, 0xfa, 0x55, 0x48, 0x89, 0xe5];
    // movabs $45,%rax; push %rax
    expected.extend_from_slice(&[0x48, 0xb8, 45, 0, 0, 0, 0, 0, 0, 0, 0x50]);
    expected.extend_from_slice(&[0x58, 0x31, 0xd2, 0x48, 0x89, 0xec, 0x5d, 0xc3]);
    assert_eq!(f.code, expected);
}

#[test]
fn parse_edge_cases() {
    let mut counter = SymbolCounter::new();

    // a literal ends where the digits end
    assert!(Function::parse("7a+", &mut counter).is_ok());

    // a lone operator pops from an empty stack
    assert!(matches!(
        Function::parse("-", &mut counter),
        Err(FunctionCreateError::StackUnderflow)
    ));

    // an empty loop needs its condition on the stack
    assert!(matches!(
        Function::parse("{}", &mut counter),
        Err(FunctionCreateError::InsufficientDepth)
    ));
    assert!(Function::parse("a{}", &mut counter).is_ok());

    // whitespace of every kind separates tokens
    assert!(Function::parse(" \t\r\n a \t b + \n", &mut counter).is_ok());

    // the empty program has no result
    assert!(matches!(
        Function::parse("", &mut counter),
        Err(FunctionCreateError::EmptyResult)
    ));
}

#[test]
fn stack_index_displacements_are_byte_scaled() {
    // Slot indexes are words; the patched disp32 is eight times the index.
    let c = push_stack_index(1);
    assert_eq!(c.code.data, vec![0x48, 0x8b, 0x84, 0x24, 0x08, 0x00, 0x00, 0x00, 0x50]);

    let c = push_stack_index(-1);
    assert_eq!(c.code.data, vec![0x48, 0x8b, 0x85, 0xf8, 0xff, 0xff, 0xff, 0x50]);

    let c = pop_stack_index(2);
    assert_eq!(c.code.data, vec![0x58, 0x48, 0x89, 0x84, 0x24, 0x10, 0x00, 0x00, 0x00]);

    let c = pop_stack_index(-1);
    assert_eq!(c.code.data, vec![0x58, 0x48, 0x89, 0x85, 0xf8, 0xff, 0xff, 0xff]);
}

#[test]
fn stack_index_range_matches_the_displacement_field() {
    let mut counter = SymbolCounter::new();
    // 2^28 scales past the 32-bit displacement field
    assert!(matches!(
        Function::parse("p268435456", &mut counter),
        Err(FunctionCreateError::StackIndexOutOfRange)
    ));
    assert!(matches!(
        Function::parse("s-268435457", &mut counter),
        Err(FunctionCreateError::StackIndexOutOfRange)
    ));
    // the extreme representable indexes still compose (and then fail only
    // the stack accounting)
    assert!(matches!(
        Function::parse("p268435455", &mut counter),
        Err(FunctionCreateError::InsufficientDepth)
    ));
    assert!(matches!(
        Function::parse("a s-268435456", &mut counter),
        Err(FunctionCreateError::InsufficientDepth)
    ));
}
