use fox_lang::ast::Ast;
use fox_lang::bytecode::OpCode;
use fox_lang::compiler::Compiler;
use fox_lang::node::{Node, OperatorKind};
use fox_lang::value::Value;

#[test]
fn test_compile_simple_addition() {
    // 5 + 10
    let mut ast = Ast::new();
    ast.nodes = vec![Node::BinaryExpression {
        left: Box::new(Node::Atomic { value: Value::Int(5) }),
        operator: OperatorKind::Add,
        right: Box::new(Node::Atomic { value: Value::Int(10) }),
    }];

    let chunk = Compiler::compile(&ast).expect("Compilation failed");

    assert_eq!(chunk.constants.len(), 2, "Should have two constants");
    match (&chunk.constants[0], &chunk.constants[1]) {
        (Value::Int(a), Value::Int(b)) => {
            assert_eq!(*a, 5);
            assert_eq!(*b, 10);
        },
        _ => panic!("Constants are not Number values"),
    }

    let expected_code = vec![
        OpCode::Constant as u8, 0,
        OpCode::Constant as u8, 1,
        OpCode::Add as u8,
        OpCode::Return as u8,
    ];

    assert_eq!(chunk.code, expected_code, "Bytecode sequence is incorrect");
}

#[test]
fn test_compile_nested_expression() {
    // (5 - 2) * 10
    let mut ast = Ast::new();
    ast.nodes = vec![Node::BinaryExpression {
        left: Box::new(Node::BinaryExpression {
            left: Box::new(Node::Atomic { value: Value::Int(5) }),
            operator: OperatorKind::Subtract,
            right: Box::new(Node::Atomic { value: Value::Int(2) }),
        }),
        operator: OperatorKind::Multiply,
        right: Box::new(Node::Atomic { value: Value::Int(10) }),
    }];

    let chunk = Compiler::compile(&ast).expect("Compilation failed");

    assert_eq!(chunk.constants.len(), 3, "Should have three constants");
    match (&chunk.constants[0], &chunk.constants[1], &chunk.constants[2]) {
        (Value::Int(a), Value::Int(b), Value::Int(c)) => {
            assert_eq!(*a, 5);
            assert_eq!(*b, 2);
            assert_eq!(*c, 10);
        },
        _ => panic!("Constants are not Number values"),
    }

    let expected_code = vec![
        OpCode::Constant as u8, 0,
        OpCode::Constant as u8, 1,
        OpCode::Subtract as u8,
        OpCode::Constant as u8, 2,
        OpCode::Multiply as u8,
        OpCode::Return as u8,
    ];

    assert_eq!(chunk.code, expected_code, "Bytecode for nested expression is incorrect");
}
