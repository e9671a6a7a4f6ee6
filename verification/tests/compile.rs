use stackjit::ast::{Block, Expression, Operator, Statement, Variable};
use stackjit::compiler::{compile_helper, CompileError};
use stackjit::function::{
    function_error_from_raw, function_result_from_raw, FunctionError, FunctionResultRaw,
};
use stackjit::code::Relocatable;
use stackjit::compiler::{add_assign_regs, copy_from_regs};
use stackjit::machine::ConditionalJump;
use stackjit::machine::Register::{Rax, R10, R15, R8};
use stackjit::{Symbol, SymbolCounter};

fn var(name: &str) -> Expression {
    Expression::VariableExpression { name: name.to_string() }
}

fn lit(text: &str) -> Expression {
    Expression::IntLiteralExpression { literal: text.to_string() }
}

fn assign(lhs: Expression, rhs: Expression) -> Statement {
    Statement::ExpressionStatement(Expression::AssignExpression {
        rhs: Box::new(rhs),
        op: Operator { operator: "=".to_string(), checked: false },
        lhs: Box::new(lhs),
    })
}

fn let_stmt(name: &str, mutable: bool, value: Expression) -> Statement {
    Statement::LetStatement(stackjit::ast::Let {
        variable: Variable { name: name.to_string(), mutable },
        value,
    })
}

fn addition(lhs: Expression, rhs: Expression) -> Expression {
    Expression::AddExpression {
        rhs: Box::new(rhs),
        op: Operator { operator: "+".to_string(), checked: false },
        lhs: Box::new(lhs),
    }
}

#[test]
fn assignment_vars_1() {
    // { x = y; } with neither name bound
    let block = Block { statements: vec![assign(var("x"), var("y"))] };
    let mut counter = SymbolCounter::new();
    let r = compile_helper(&block, &mut counter);
    assert_eq!(r.unwrap_err(), CompileError::UndefinedSymbol("x".to_string()));
}

#[test]
fn assignment_vars_2() {
    // { let x = 1; x = y; } with y unbound
    let block = Block {
        statements: vec![let_stmt("x", false, lit("1")), assign(var("x"), var("y"))],
    };
    let mut counter = SymbolCounter::new();
    let r = compile_helper(&block, &mut counter);
    assert_eq!(r.unwrap_err(), CompileError::UndefinedSymbol("y".to_string()));
}

#[test]
fn assignment_vars_3() {
    // { let mut x = 1; let y = 2; x = y; }
    let block = Block {
        statements: vec![
            let_stmt("x", true, lit("1")),
            let_stmt("y", false, lit("2")),
            assign(var("x"), var("y")),
        ],
    };
    let mut counter = SymbolCounter::new();
    let obj = compile_helper(&block, &mut counter).unwrap();
    let assembled = obj.code.add(&obj.data).assemble().unwrap();
    assert_eq!(
        assembled,
        [
            0x48, 0x8b, 0x05, 0x27, 0x00, 0x00, 0x00,       // mov one(%rip),%rax
            0x48, 0x89, 0x84, 0x24, 0x00, 0x00, 0x00, 0x00, // mov %rax,x(%rsp)
            0x48, 0x8b, 0x05, 0x20, 0x00, 0x00, 0x00,       // mov two(%rip),%rax
            0x48, 0x89, 0x84, 0x24, 0x08, 0x00, 0x00, 0x00, // mov %rax,y(%rsp)
            0x48, 0x8b, 0x84, 0x24, 0x08, 0x00, 0x00, 0x00, // mov y(%rsp),%rax
            0x48, 0x89, 0x84, 0x24, 0x00, 0x00, 0x00, 0x00, // mov %rax,x(%rsp)
            0x01, 0x00, 0x00, 0x00, 0x00, 0x00, 0x00, 0x00, // .quad 1
            0x02, 0x00, 0x00, 0x00, 0x00, 0x00, 0x00, 0x00, // .quad 2
        ]
    );
}

#[test]
fn assignment_vars_4() {
    // { let mut x = 1; let y = 2; x = x + y; }
    let block = Block {
        statements: vec![
            let_stmt("x", true, lit("1")),
            let_stmt("y", false, lit("2")),
            assign(var("x"), addition(var("x"), var("y"))),
        ],
    };
    let mut counter = SymbolCounter::new();
    let obj = compile_helper(&block, &mut counter).unwrap();
    let assembled = obj.code.add(&obj.data).assemble().unwrap();
    assert_eq!(
        assembled,
        [
            0x48, 0x8b, 0x05, 0x42, 0x00, 0x00, 0x00,       // mov one(%rip),%rax
            0x48, 0x89, 0x84, 0x24, 0x00, 0x00, 0x00, 0x00, // mov %rax,x(%rsp)
            0x48, 0x8b, 0x05, 0x3b, 0x00, 0x00, 0x00,       // mov two(%rip),%rax
            0x48, 0x89, 0x84, 0x24, 0x08, 0x00, 0x00, 0x00, // mov %rax,y(%rsp)
            0x48, 0x8b, 0x84, 0x24, 0x00, 0x00, 0x00, 0x00, // mov x(%rsp),%rax
            0x48, 0x8b, 0x8c, 0x24, 0x08, 0x00, 0x00, 0x00, // mov y(%rsp),%rcx
            0x48, 0x01, 0xc8,                               // add %rcx,%rax
            0x48, 0x89, 0x84, 0x24, 0x10, 0x00, 0x00, 0x00, // mov %rax,temp(%rsp)
            0x48, 0x8b, 0x84, 0x24, 0x10, 0x00, 0x00, 0x00, // mov temp(%rsp),%rax
            0x48, 0x89, 0x84, 0x24, 0x00, 0x00, 0x00, 0x00, // mov %rax,x(%rsp)
            0x01, 0x00, 0x00, 0x00, 0x00, 0x00, 0x00, 0x00, // .quad 1
            0x02, 0x00, 0x00, 0x00, 0x00, 0x00, 0x00, 0x00, // .quad 2
        ]
    );
}

#[test]
fn add_assign() {
    let code = add_assign_regs(Rax, Rax).unwrap();
    assert_eq!(code.code.data, vec![0x48, 0x01, 0xc0]);
    assert_eq!(code.data.data.len(), 0);

    let code = add_assign_regs(Rax, R8).unwrap();
    assert_eq!(code.code.data, vec![0x4c, 0x01, 0xc0]);
    assert_eq!(code.data.data.len(), 0);

    let code = add_assign_regs(R15, Rax).unwrap();
    assert_eq!(code.code.data, vec![0x49, 0x01, 0xc7]);
    assert_eq!(code.data.data.len(), 0);

    let code = add_assign_regs(R10, R10).unwrap();
    assert_eq!(code.code.data, vec![0x4d, 0x01, 0xd2]);
    assert_eq!(code.data.data.len(), 0);
}

#[test]
fn error_codes_round_trip() {
    assert_eq!(function_error_from_raw(0), None);
    assert_eq!(function_error_from_raw(1), Some(FunctionError::DivideByZero));
    assert_eq!(function_error_from_raw(2), Some(FunctionError::DivideMinByNegativeOne));
    assert_eq!(function_error_from_raw(77), Some(FunctionError::Other));

    assert_eq!(function_error_from_raw(FunctionError::DivideByZero.code()), Some(FunctionError::DivideByZero));
    assert_eq!(
        function_error_from_raw(FunctionError::DivideMinByNegativeOne.code()),
        Some(FunctionError::DivideMinByNegativeOne)
    );
}

#[test]
fn raw_results_become_typed_results() {
    assert_eq!(function_result_from_raw(FunctionResultRaw { value: 12, error: 0 }), Ok(12));
    assert_eq!(
        function_result_from_raw(FunctionResultRaw { value: 0, error: 1 }),
        Err(FunctionError::DivideByZero)
    );
    assert_eq!(
        function_result_from_raw(FunctionResultRaw { value: 0, error: 2 }),
        Err(FunctionError::DivideMinByNegativeOne)
    );
    assert_eq!(
        function_result_from_raw(FunctionResultRaw { value: 0, error: -9 }),
        Err(FunctionError::Other)
    );
}

#[test]
fn err_display_divide_by_zero() {
    assert!(FunctionError::DivideByZero.message().len() > 0);
    assert!(FunctionError::DivideMinByNegativeOne.message().len() > 0);
}

#[test]
fn near_jump_patches_the_displacement_field() {
    let sym = Symbol::new_global("after".to_string());
    let jump = ConditionalJump::Equal.near_jump(sym.clone());
    // the four displacement bytes follow the two opcode bytes
    assert_eq!(jump.relocations.len(), 1);
    assert_eq!(jump.relocations[0].location, 2);
    assert_eq!(jump.relocations[0].addend, -4);

    // jump over one trailing byte: displacement 7 - 4 - 2 = 1
    let mut rel = jump.add(&Relocatable::from_bytes(vec![0x90]));
    rel.push_symbol(sym, 7);
    assert_eq!(rel.assemble().unwrap(), vec![0x0f, 0x84, 0x01, 0x00, 0x00, 0x00, 0x90]);
}

#[test]
fn short_jump_patches_the_displacement_byte() {
    let sym = Symbol::new_global("after".to_string());
    let jump = ConditionalJump::NotEqual.short_jump(sym.clone());
    let mut rel = jump.add(&Relocatable::from_bytes(vec![0x90]));
    rel.push_symbol(sym, 3);
    // displacement 3 - 1 - 1 = 1
    assert_eq!(rel.assemble().unwrap(), vec![0x75, 0x01, 0x90]);
}

#[test]
fn copy_between_registers() {
    let code = copy_from_regs(Rax, R8).unwrap();
    assert_eq!(code.code.data, vec![0x4c, 0x89, 0xc0]);
}
