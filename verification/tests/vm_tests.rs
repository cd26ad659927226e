use fox_lang::ast::Ast;
use fox_lang::bytecode::{Chunk, OpCode};
use fox_lang::compiler::Compiler;
use fox_lang::node::{Node, OperatorKind};
use fox_lang::value::Value;
use fox_lang::value::Value::Int;
use fox_lang::vm::VM;

/// Compiles a program of one node, runs it, and returns the result.
fn run_vm_test(root_node: Node) -> Value {
    let mut ast = Ast::new();
    ast.nodes = vec![root_node];
    let chunk = Compiler::compile(&ast).expect("Test compilation failed");
    let mut vm = VM::new();
    vm.interpret(&chunk).expect("Test VM execution failed")
}

#[test]
fn test_simple_arithmetic() {
    let node = Node::BinaryExpression {
        left: Box::new(Node::Atomic { value: Int(5) }),
        operator: OperatorKind::Add,
        right: Box::new(Node::Atomic { value: Int(10) }),
    };
    let result = run_vm_test(node);
    assert_eq!(result.to_string(), "15");

    let node = Node::BinaryExpression {
        left: Box::new(Node::Atomic { value: Int(20) }),
        operator: OperatorKind::Subtract,
        right: Box::new(Node::Atomic { value: Int(2) }),
    };
    let result = run_vm_test(node);
    assert_eq!(result.to_string(), "18");

    let node = Node::BinaryExpression {
        left: Box::new(Node::Atomic { value: Int(7) }),
        operator: OperatorKind::Multiply,
        right: Box::new(Node::Atomic { value: Int(7) }),
    };
    let result = run_vm_test(node);
    assert_eq!(result.to_string(), "49");

    let node = Node::BinaryExpression {
        left: Box::new(Node::Atomic { value: Int(100) }),
        operator: OperatorKind::Divide,
        right: Box::new(Node::Atomic { value: Int(20) }),
    };
    let result = run_vm_test(node);
    assert_eq!(result.to_string(), "5");
}

#[test]
fn test_complex_nested_expression() {
    let node = Node::BinaryExpression {
        left: Box::new(Node::BinaryExpression {
            left: Box::new(Node::Atomic { value: Int(100) }),
            operator: OperatorKind::Subtract,
            right: Box::new(Node::Atomic { value: Int(20) }),
        }),
        operator: OperatorKind::Divide,
        right: Box::new(Node::BinaryExpression {
            left: Box::new(Node::Atomic { value: Int(2) }),
            operator: OperatorKind::Multiply,
            right: Box::new(Node::Atomic { value: Int(2) }),
        }),
    };

    let result = run_vm_test(node);
    assert_eq!(result.to_string(), "20");
}

#[test]
fn test_precedence_is_handled_by_ast_structure() {
    let node = Node::BinaryExpression {
        left: Box::new(Node::Atomic { value: Int(5) }),
        operator: OperatorKind::Add,
        right: Box::new(Node::BinaryExpression {
            left: Box::new(Node::Atomic { value: Int(2) }),
            operator: OperatorKind::Multiply,
            right: Box::new(Node::Atomic { value: Int(10) }),
        }),
    };

    let result = run_vm_test(node);
    assert_eq!(result.to_string(), "25");
}

#[test]
fn test_unary_negation() {
    // -10
    let mut chunk = Chunk::new();
    let const_idx = chunk.add_constant(Int(10));
    chunk.write(OpCode::Constant as u8);
    chunk.write(const_idx);
    chunk.write(OpCode::Negate as u8);
    chunk.write(OpCode::Return as u8);

    let mut vm = VM::new();
    let result = vm.interpret(&chunk).unwrap();
    assert_eq!(result.to_string(), "-10");
}

#[test]
fn test_global_variable_definition_and_use() {
    // let a = 20;
    // a / 4
    let mut chunk = Chunk::new();

    let val_idx = chunk.add_constant(Value::Int(20));
    chunk.write(OpCode::Constant as u8);
    chunk.write(val_idx);

    let name_idx = chunk.add_constant(Value::Str("a".to_string()));
    chunk.write(OpCode::DefineGlobal as u8);
    chunk.write(name_idx);

    chunk.write(OpCode::GetGlobal as u8);
    chunk.write(name_idx);

    let four_idx = chunk.add_constant(Int(4));
    chunk.write(OpCode::Constant as u8);
    chunk.write(four_idx);

    chunk.write(OpCode::Divide as u8);
    chunk.write(OpCode::Return as u8);

    let mut vm = VM::new();
    let result = vm.interpret(&chunk).unwrap();
    assert_eq!(result.to_string(), "5");
}

#[test]
fn test_multiple_global_variables() {
    // let a = 3;
    // let b = 4;
    // a * b
    let mut chunk = Chunk::new();

    let three_idx = chunk.add_constant(Int(3));
    let a_idx = chunk.add_constant(Value::Str("a".to_string()));
    chunk.write(OpCode::Constant as u8); chunk.write(three_idx);
    chunk.write(OpCode::DefineGlobal as u8); chunk.write(a_idx);

    let four_idx = chunk.add_constant(Int(4));
    let b_idx = chunk.add_constant(Value::Str("b".to_string()));
    chunk.write(OpCode::Constant as u8); chunk.write(four_idx);
    chunk.write(OpCode::DefineGlobal as u8); chunk.write(b_idx);

    chunk.write(OpCode::GetGlobal as u8); chunk.write(a_idx);
    chunk.write(OpCode::GetGlobal as u8); chunk.write(b_idx);
    chunk.write(OpCode::Multiply as u8);
    chunk.write(OpCode::Return as u8);

    let mut vm = VM::new();
    let result = vm.interpret(&chunk).unwrap();
    assert_eq!(result.to_string(), "12");
}

#[test]
fn test_runtime_error_for_undefined_variable() {
    let mut chunk = Chunk::new();
    let name_idx = chunk.add_constant(Value::Str("x".to_string()));
    chunk.write(OpCode::GetGlobal as u8);
    chunk.write(name_idx);

    let mut vm = VM::new();
    let result = vm.interpret(&chunk);

    assert!(result.is_err(), "Expected an error, but got Ok");
    assert_eq!(result.unwrap_err(), "Undefined variable 'x'.");
}

#[test]
fn test_if_else_statement() {
    let mut ast_true = Ast::new();
    ast_true.nodes = vec![Node::Conditional {
        condition: Box::new(Node::Atomic { value: Value::Bool(true) }),
        consequence: vec![Node::Atomic { value: Int(10) }],
        alternative: vec![Node::Atomic { value: Int(20) }],
    }];
    let chunk_true = Compiler::compile(&ast_true).expect("Compilation failed for true branch");
    let mut vm_true = VM::new();
    let result_true = vm_true.interpret(&chunk_true).expect("VM execution failed for true branch");
    assert_eq!(result_true.to_string(), "10");
}

#[test]
fn test_expression_statement_cleans_stack() {
    let mut chunk = Chunk::new();

    let idx10 = chunk.add_constant(Value::Int(10));
    chunk.write(OpCode::Constant as u8); chunk.write(idx10);
    chunk.write(OpCode::Pop as u8);

    let idx20 = chunk.add_constant(Value::Int(20));
    chunk.write(OpCode::Constant as u8); chunk.write(idx20);
    chunk.write(OpCode::Pop as u8);

    chunk.write(OpCode::Nil as u8);
    chunk.write(OpCode::Return as u8);

    let mut vm = VM::new();
    let result = vm.interpret(&chunk).unwrap();

    assert_eq!(result, Value::Null);
}
