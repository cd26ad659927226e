use std::collections::BTreeMap;
use fox_lang::ast::Ast;
use fox_lang::bytecode::{Chunk, OpCode};
use fox_lang::compiler::Compiler;
use fox_lang::cut::{reduce, Axiom, ReduceError};
use fox_lang::lang_lexer::LangLexer;
use fox_lang::lang_parser::LangParser;
use fox_lang::lexer::TokenKind;
use fox_lang::parser::ParseError;
use fox_lang::fir::{FirFunction, FirInstr, FirValue};
use fox_lang::lower::{lower_function, lower_stmt, LoweringContext};
use fox_lang::node::{Node, OperatorKind};
use fox_lang::scope::Declarations;
use fox_lang::value::Value;
use fox_lang::vm::VM;

fn num(i: i32) -> Box<Node> {
    Box::new(Node::Atomic { value: Value::Int(i) })
}

fn binary(left: Box<Node>, operator: OperatorKind, right: Box<Node>) -> Box<Node> {
    Box::new(Node::BinaryExpression { left, operator, right })
}

fn compile_one(node: Node) -> Result<Chunk, String> {
    let mut ast = Ast::new();
    ast.nodes = vec![node];
    Compiler::compile(&ast)
}

fn run(chunk: &Chunk) -> Result<Value, String> {
    let mut vm = VM::new();
    vm.interpret(chunk)
}

#[test]
fn compiled_arithmetic_runs_to_its_value() {
    // (5 + 10) * 2 - 40 / 3 is 30 - 13
    let node = binary(
        binary(binary(num(5), OperatorKind::Add, num(10)), OperatorKind::Multiply, num(2)),
        OperatorKind::Subtract,
        binary(num(40), OperatorKind::Divide, num(3)),
    );
    let chunk = compile_one(*node).unwrap();
    assert_eq!(chunk.constants.len(), 5);
    assert_eq!(run(&chunk).unwrap(), Value::Int(17));
}

#[test]
fn division_truncates_toward_zero() {
    let chunk = compile_one(*binary(num(-7), OperatorKind::Divide, num(2))).unwrap();
    assert_eq!(run(&chunk).unwrap(), Value::Int(-3));
}

#[test]
fn conditional_compiles_to_patched_jumps() {
    let mut ast = Ast::new();
    ast.nodes = vec![Node::Conditional {
        condition: Box::new(Node::Atomic { value: Value::Bool(false) }),
        consequence: vec![Node::Atomic { value: Value::Int(10) }],
        alternative: vec![Node::Atomic { value: Value::Int(20) }],
    }];
    let chunk = Compiler::compile(&ast).unwrap();
    let expected = vec![
        OpCode::Constant as u8, 0,
        OpCode::JumpIfFalse as u8, 0, 5,
        OpCode::Constant as u8, 1,
        OpCode::Jump as u8, 0, 2,
        OpCode::Constant as u8, 2,
        OpCode::Return as u8,
    ];
    assert_eq!(chunk.code, expected);
    assert_eq!(run(&chunk).unwrap(), Value::Int(20));
}

#[test]
fn empty_program_and_statement_leave_nil() {
    let ast = Ast::new();
    let chunk = Compiler::compile(&ast).unwrap();
    assert_eq!(chunk.code, vec![OpCode::Nil as u8, OpCode::Return as u8]);
    assert_eq!(run(&chunk).unwrap(), Value::Null);

    let assign = Node::AssignStmt {
        left: Box::new(Node::Identifier { value: "a".to_string() }),
        right: num(3),
        kind: "let".to_string(),
    };
    let chunk = compile_one(assign).unwrap();
    assert_eq!(
        chunk.code,
        vec![
            OpCode::Constant as u8, 0,
            OpCode::DefineGlobal as u8, 1,
            OpCode::Nil as u8,
            OpCode::Return as u8,
        ]
    );
    assert_eq!(run(&chunk).unwrap(), Value::Null);
}

#[test]
fn compile_errors() {
    let null = compile_one(Node::Atomic { value: Value::Null });
    assert_eq!(null.err().unwrap(), "Unsupported value type: Null");

    let bin = compile_one(Node::Atomic { value: Value::Bin(5) });
    assert_eq!(bin.err().unwrap(), "Unsupported value type: Bin(5)");

    let not = compile_one(Node::UnaryExpression { operator: OperatorKind::Negation, right: num(1) });
    assert_eq!(not.err().unwrap(), "Unsupported unary operator");

    let target = compile_one(Node::AssignStmt { left: num(1), right: num(2), kind: "let".to_string() });
    assert_eq!(target.err().unwrap(), "Invalid assignment target");

    let other = compile_one(Node::Type { name: "nat".to_string() });
    assert_eq!(other.err().unwrap(), "Unsupported AST node");
}

#[test]
fn negation_compiles_and_runs() {
    let node = Node::UnaryExpression { operator: OperatorKind::Subtract, right: num(4) };
    let chunk = compile_one(node).unwrap();
    assert_eq!(
        chunk.code,
        vec![OpCode::Constant as u8, 0, OpCode::Negate as u8, OpCode::Return as u8]
    );
    assert_eq!(run(&chunk).unwrap(), Value::Int(-4));
}

#[test]
fn globals_are_defined_read_and_set() {
    // let a = 2; a = 9 (kept on the stack); a
    let mut chunk = Chunk::new();
    let two = chunk.add_constant(Value::Int(2));
    let name = chunk.add_constant(Value::Str("a".to_string()));
    let nine = chunk.add_constant(Value::Int(9));
    chunk.write(OpCode::Constant as u8); chunk.write(two);
    chunk.write(OpCode::DefineGlobal as u8); chunk.write(name);
    chunk.write(OpCode::Constant as u8); chunk.write(nine);
    chunk.write(OpCode::SetGlobal as u8); chunk.write(name);
    chunk.write(OpCode::Pop as u8);
    chunk.write(OpCode::GetGlobal as u8); chunk.write(name);
    chunk.write(OpCode::Return as u8);
    assert_eq!(run(&chunk).unwrap(), Value::Int(9));
}

#[test]
fn vm_errors() {
    // a boolean and an integer do not add
    let mut chunk = Chunk::new();
    let t = chunk.add_constant(Value::Bool(true));
    let one = chunk.add_constant(Value::Int(1));
    chunk.write(OpCode::Constant as u8); chunk.write(t);
    chunk.write(OpCode::Constant as u8); chunk.write(one);
    chunk.write(OpCode::Add as u8);
    assert_eq!(run(&chunk).unwrap_err(), "Mismatched types for operation");

    // equality of two booleans is refused too
    let mut chunk = Chunk::new();
    chunk.write(OpCode::OpTrue as u8);
    chunk.write(OpCode::OpTrue as u8);
    chunk.write(OpCode::OpEqual as u8);
    assert_eq!(run(&chunk).unwrap_err(), "Mismatched types for operation");

    // negating a boolean
    let mut chunk = Chunk::new();
    chunk.write(OpCode::OpFalse as u8);
    chunk.write(OpCode::Negate as u8);
    assert_eq!(run(&chunk).unwrap_err(), "Operand must be a number.");

    // a global whose name is not a string
    let mut chunk = Chunk::new();
    let idx = chunk.add_constant(Value::Int(3));
    chunk.write(OpCode::Constant as u8); chunk.write(idx);
    chunk.write(OpCode::DefineGlobal as u8); chunk.write(idx);
    assert_eq!(run(&chunk).unwrap_err(), "Global variable name must be a string.");

    // setting a global that was never defined
    let mut chunk = Chunk::new();
    let name = chunk.add_constant(Value::Str("y".to_string()));
    chunk.write(OpCode::OpTrue as u8);
    chunk.write(OpCode::SetGlobal as u8); chunk.write(name);
    assert_eq!(run(&chunk).unwrap_err(), "Undefined variable 'y'.");

    // logical not of an integer
    let mut chunk = Chunk::new();
    let five = chunk.add_constant(Value::Int(5));
    chunk.write(OpCode::Constant as u8); chunk.write(five);
    chunk.write(OpCode::OpNot as u8);
    assert_eq!(run(&chunk).unwrap_err(), "Operand must be a boolean.");

    // remainder by zero
    let mut chunk = Chunk::new();
    let seven = chunk.add_constant(Value::Int(7));
    let zero = chunk.add_constant(Value::Int(0));
    chunk.write(OpCode::Constant as u8); chunk.write(seven);
    chunk.write(OpCode::Constant as u8); chunk.write(zero);
    chunk.write(OpCode::OpModulo as u8);
    assert_eq!(run(&chunk).unwrap_err(), "Division by zero.");
}

#[test]
fn remainder_repeats_until_the_operands_fail() {
    // the remainder instruction does not move on: 7 % 3 leaves 1 above `true`,
    // and the next remainder of `true` by 1 fails
    let mut chunk = Chunk::new();
    let seven = chunk.add_constant(Value::Int(7));
    let three = chunk.add_constant(Value::Int(3));
    chunk.write(OpCode::OpTrue as u8);
    chunk.write(OpCode::Constant as u8); chunk.write(seven);
    chunk.write(OpCode::Constant as u8); chunk.write(three);
    chunk.write(OpCode::OpModulo as u8);
    assert_eq!(run(&chunk).unwrap_err(), "Operands must be numbers.");
}

#[test]
fn return_on_empty_stack_gives_null() {
    let mut chunk = Chunk::new();
    chunk.write(OpCode::Pop as u8);
    chunk.write(OpCode::Return as u8);
    assert_eq!(run(&chunk).unwrap(), Value::Null);
}

#[test]
fn opcode_bytes_and_equality() {
    assert_eq!(OpCode::Constant.byte(), 0);
    assert_eq!(OpCode::Call.byte(), 21);
    assert_eq!(OpCode::OpModulo.byte(), OpCode::OpModulo as u8);
    for b in 0u8..22 {
        assert_eq!(OpCode::decode(b).unwrap().byte(), b);
    }
    assert!(OpCode::decode(22).is_none());
    assert!(OpCode::Add == OpCode::Add);
    assert!(OpCode::Jump == OpCode::Jump);
    assert!(OpCode::OpEqual != OpCode::OpEqual);
    assert!(OpCode::Add != OpCode::Subtract);
    assert!(OpCode::from(OperatorKind::Divide) == OpCode::Divide);
}

#[test]
fn constant_index_wraps_after_256() {
    let mut chunk = Chunk::new();
    for i in 0..256 {
        assert_eq!(chunk.add_constant(Value::Int(i)), i as u8);
    }
    assert_eq!(chunk.add_constant(Value::Int(256)), 0);
    assert_eq!(chunk.constants.len(), 257);
}

#[test]
fn adding_a_step_twice_adds_it_once() {
    let mut ax = Axiom::new("ax-x".to_string(), "⊢ 𝜑".to_string());
    let first = ax.add_step(Node::Identifier { value: "𝜑".to_string() });
    let second = ax.add_step(Node::Identifier { value: "𝜓".to_string() });
    let again = ax.add_step(Node::Identifier { value: "𝜑".to_string() });
    assert_eq!((first, second, again), (0, 1, 0));
    assert_eq!(ax.steps.len(), 2);
    assert_eq!(ax.steps[1].index, 1);
    assert_eq!(ax.steps[1].expression, "𝜓");
}

#[test]
fn solved_steps_are_numbered_and_distinct() {
    let mut ax = Axiom::new("ax-1".to_string(), "⊢ (𝜑 → (𝜓 → 𝜑))".to_string());
    ax.solve().unwrap();
    let expressions: Vec<&str> = ax.steps.iter().map(|s| s.expression.as_str()).collect();
    assert_eq!(expressions, vec!["(𝜑 → (𝜓 → 𝜑))", "𝜑", "(𝜓 → 𝜑)", "𝜓"]);
    for (i, step) in ax.steps.iter().enumerate() {
        assert_eq!(step.index, i);
        for other in ax.steps.iter().skip(i + 1) {
            assert_ne!(step.expression, other.expression);
        }
    }
}

#[test]
fn reduce_splits_every_connective_and_refuses_the_rest() {
    let node = Node::BinaryExpression {
        left: Box::new(Node::Identifier { value: "A".to_string() }),
        operator: OperatorKind::Conjunction,
        right: Box::new(Node::Identifier { value: "B".to_string() }),
    };
    let (l, r) = reduce(node).unwrap();
    assert_eq!(l, Node::Identifier { value: "A".to_string() });
    assert_eq!(r, Node::Identifier { value: "B".to_string() });
    assert!(matches!(reduce(Node::EmptyNode), Err(ReduceError::Unimplemented)));
}

#[test]
fn declarations_read_after_write() {
    let mut d = Declarations::new();
    assert!(d.get("x").is_none());
    d.insert("x".to_string(), Node::Atomic { value: Value::Int(1) });
    d.insert("y".to_string(), Node::Atomic { value: Value::Int(2) });
    d.insert("x".to_string(), Node::Atomic { value: Value::Int(3) });
    assert_eq!(d.get("x").unwrap().val(), Value::Int(3));
    d.remove("x");
    assert!(d.get("x").is_none());
    assert_eq!(d.get("y").unwrap().val(), Value::Int(2));
}

#[test]
fn locals_are_numbered_in_turn() {
    let mut ctx = LoweringContext::new();
    assert_eq!(ctx.get_local("a"), None);
    assert_eq!(ctx.new_local("a"), 0);
    assert_eq!(ctx.new_local("b"), 1);
    assert_eq!(ctx.new_local("a"), 2);
    assert_eq!(ctx.get_local("a"), Some(2));
    assert_eq!(ctx.get_local("b"), Some(1));
    assert_eq!(ctx.get_local("c"), None);
}

#[test]
fn print_collects_output() {
    let mut parser = LangParser::new("let x = 1 + 2; print(x); print(\"done\");");
    let mut ast = parser.parse().unwrap();
    ast.eval().unwrap();
    assert_eq!(
        ast.output,
        vec!["Atomic { value: Int(3) }".to_string(), "Atomic { value: Str(\"done\") }".to_string()]
    );
    assert_eq!(ast.declarations.get("x").unwrap().val(), Value::Int(3));
}

#[test]
fn parse_error_is_reported() {
    let mut parser = LangParser::new("let = 1;");
    assert!(parser.parse().is_err());
}

#[test]
fn display_texts() {
    assert_eq!(TokenKind::Implies.to_string(), "→");
    assert_eq!(TokenKind::IsEqual.to_string(), "==");
    assert_eq!(TokenKind::Number.to_string(), "Number");
    assert_eq!(TokenKind::ForAll.to_string(), "ForAll");
    assert_eq!(ParseError::UnexpectedToken.to_string(), "Unexpected token");
    let e = ParseError::AccessOutOfBoundsToken { position: 12, total_tokens: 7, caller: "current".to_string() };
    assert_eq!(
        e.to_string(),
        "Access out of bounds token; called by current at position 12 with total tokens 7"
    );
    assert_eq!(ReduceError::Unimplemented.to_string(), "Unimplemented");
    assert_eq!(ReduceError::EmptyNode.to_string(), "EmptyNode");
}

#[test]
fn language_operators_are_tokenized() {
    let mut lexer = LangLexer::new("a == b .. << >> || && & | ^ ~ - * / % { } [ ] , . < > =");
    lexer.tokenize().unwrap();
    let kinds: Vec<TokenKind> = lexer.tokens().iter().map(|t| t.kind).collect();
    assert_eq!(
        kinds,
        vec![
            TokenKind::Word, TokenKind::IsEqual, TokenKind::Word, TokenKind::Range,
            TokenKind::ShiftLeft, TokenKind::ShiftRight, TokenKind::Or, TokenKind::And,
            TokenKind::BitwiseAnd, TokenKind::BitwiseOr, TokenKind::BitwiseXor, TokenKind::Negation,
            TokenKind::Subtract, TokenKind::Multiply, TokenKind::Divide, TokenKind::Modulo,
            TokenKind::LCurlyBracket, TokenKind::RCurlyBracket, TokenKind::LBracket,
            TokenKind::RBracket, TokenKind::Comma, TokenKind::Period, TokenKind::LessThan,
            TokenKind::GreaterThan, TokenKind::Equality,
        ]
    );
    let values: Vec<String> = lexer.tokens().iter().map(|t| t.value.clone()).collect();
    assert_eq!(values[1], "==");
    assert_eq!(values[3], "..");

    let mut unknown = LangLexer::new("let x = 1 $ 2;");
    assert_eq!(unknown.tokenize().unwrap_err(), "Unknown character: $");
    assert_eq!(unknown.tokens().len(), 4);
}

#[test]
fn functions_lower_to_numbered_locals() {
    let ident = |n: &str| Node::Ident { name: n.to_string(), kind: "var".to_string() };
    let decl = Node::FunctionDecl {
        name: Box::new(Node::Ident { name: "add".to_string(), kind: "fn".to_string() }),
        arguments: vec![ident("x"), ident("y")],
        returns: vec![],
        body: vec![
            Node::AssignStmt {
                left: Box::new(ident("z")),
                right: Box::new(Node::BinaryExpression {
                    left: Box::new(ident("x")),
                    operator: OperatorKind::Add,
                    right: Box::new(ident("y")),
                }),
                kind: "var".to_string(),
            },
            Node::Return { value: Box::new(ident("z")) },
        ],
    };
    let f = lower_function(&decl);
    assert_eq!(f.name, "add");
    assert_eq!(f.params, vec!["x".to_string(), "y".to_string()]);
    assert_eq!(f.blocks.len(), 1);
    assert_eq!(f.blocks[0].label, "entry");
    assert_eq!(
        f.blocks[0].instrs,
        vec![
            FirInstr::Add(FirValue::Local(0), FirValue::Local(1)),
            FirInstr::StoreLocal("z".to_string(), FirValue::Local(2)),
            FirInstr::Return(Some(FirValue::Local(3))),
        ]
    );
}

#[test]
fn conditional_and_call_lower_in_order() {
    let mut func = FirFunction::new("f".to_string(), vec![]);
    let mut ctx = LoweringContext::new();
    let stmt = Node::Conditional {
        condition: Box::new(Node::Atomic { value: Value::Bool(true) }),
        consequence: vec![Node::Call {
            name: "print".to_string(),
            arguments: vec![Node::Atomic { value: Value::Int(1) }],
            returns: vec![],
        }],
        alternative: vec![],
    };
    lower_stmt(&stmt, &mut func, &mut ctx);
    assert_eq!(
        func.blocks[0].instrs,
        vec![
            FirInstr::JumpIf {
                cond: FirValue::ConstBool(true),
                then_label: "then".to_string(),
                else_label: None,
            },
            FirInstr::Call { func: "print".to_string(), args: vec![FirValue::ConstInt(1)] },
        ]
    );
    assert_eq!(ctx.get_local("_call_tmp"), Some(0));
}

#[test]
fn assignment_then_read() {
    let mut ast = Ast::new();
    ast.add_node(Node::AssignStmt {
        left: Box::new(Node::Ident { name: "x".to_string(), kind: "var".to_string() }),
        right: Box::new(Node::Atomic { value: Value::Int(10) }),
        kind: "Nat".to_string(),
    });
    ast.eval().unwrap();
    assert_eq!(ast.declarations.get("x").unwrap().val(), Value::Int(10));
    assert!(ast.output.is_empty());
}

#[test]
fn debug_renderings_reach_the_output() {
    assert_eq!(Value::Bin(5).to_string(), "101");
    let call = Node::Call {
        name: "f".to_string(),
        arguments: vec![Node::Atomic { value: Value::Int(1) }],
        returns: vec![],
    };
    assert_eq!(call.to_string(), "f([Atomic { value: Int(1) }])");

    let mut ast = Ast::new();
    ast.add_node(Node::Call {
        name: "reduce".to_string(),
        arguments: vec![Node::BinaryExpression {
            left: Box::new(Node::Identifier { value: "A".to_string() }),
            operator: OperatorKind::Implies,
            right: Box::new(Node::Identifier { value: "B".to_string() }),
        }],
        returns: vec![],
    });
    ast.eval().unwrap();
    assert_eq!(ast.output, vec!["Ok(Identifier { value: \"A\" })".to_string()]);

    let mut parser = LangParser::new("let x = [\"a\", \"b\"]; print(x[1]);");
    let mut program = parser.parse().unwrap();
    program.eval().unwrap();
    assert_eq!(program.output, vec!["[\"b\"]".to_string()]);
}

#[test]
fn unexpected_statement_token_is_reported() {
    let mut parser = LangParser::new("= 1;");
    assert_eq!(
        parser.parse().err().unwrap(),
        "unexpected token: Token { value: \"=\", kind: Equality } while parsing"
    );
}

#[test]
fn map_literal_displays_as_an_ordered_map() {
    let atom = |v: Value| Node::Atomic { value: v };
    let map = Node::HMap {
        values: vec![
            (atom(Value::Int(2)), atom(Value::Str("b".to_string()))),
            (atom(Value::Int(1)), atom(Value::Str("a".to_string()))),
        ],
    };
    assert_eq!(
        map.to_string(),
        "{Atomic { value: Int(1) }: Atomic { value: Str(\"a\") }, Atomic { value: Int(2) }: Atomic { value: Str(\"b\") }}"
    );
    assert_eq!(Node::HMap { values: vec![] }.to_string(), "{}");
}

#[test]
fn lexing_ends_unless_a_string_is_left_open() {
    assert!(fox_lang::lang_lexer::lexes("print(\"a\");"));
    assert!(!fox_lang::lang_lexer::lexes("print(\"a);"));
    assert!(fox_lang::lang_lexer::lexes("let x = 1 $ 2;"));
    assert!(fox_lang::lang_lexer::lexes("let x = 1; // \"open"));
    assert!(fox_lang::lang_lexer::lexes(""));
}

#[test]
fn instruction_widths_and_jump_targets() {
    assert_eq!(OpCode::Constant.width(), 2);
    assert_eq!(OpCode::SetGlobal.width(), 2);
    assert_eq!(OpCode::JumpIfFalse.width(), 3);
    assert_eq!(OpCode::Add.width(), 1);
    let mut chunk = Chunk::new();
    chunk.write(OpCode::Jump as u8);
    chunk.write(1);
    chunk.write(2);
    assert_eq!(chunk.jump_distance(0), 258);
    assert_eq!(chunk.jump_target(0), 261);
}

#[test]
fn matrix_rows_become_lines() {
    let row = |xs: Vec<i32>| Node::Array {
        elements: xs.into_iter().map(|i| Node::Atomic { value: Value::Int(i) }).collect(),
    };
    let lines = fox_lang::internal_types::matrix_lines(&vec![row(vec![1, -2]), row(vec![3]), row(vec![])]);
    assert_eq!(lines, vec!["1, -2, ".to_string(), "3, ".to_string(), "".to_string()]);
}

#[test]
fn solved_steps_are_closed_under_reduce() {
    let mut ax = Axiom::new("ax-2".to_string(), "⊢ ((𝜑 → (𝜓 → 𝜒)) → ((𝜑 → 𝜓) → (𝜑 → 𝜒)))".to_string());
    ax.solve().unwrap();
    let expressions: Vec<String> = ax.steps.iter().map(|s| s.expression.clone()).collect();
    for e in expressions.iter() {
        let mut parser = fox_lang::parser::Parser::new(e.clone());
        let node = parser.parse().unwrap();
        let (l, r) = reduce(node).unwrap();
        assert!(expressions.contains(&l.to_string()));
        assert!(expressions.contains(&r.to_string()));
    }
}

#[test]
fn integers_render_and_parse_in_decimal_and_binary() {
    assert_eq!(Value::Int(0).to_string(), "0");
    assert_eq!(Value::Int(-42).to_string(), "-42");
    assert_eq!(Value::Int(i32::MIN).to_string(), "-2147483648");
    assert_eq!(Value::Int(i32::MAX).to_string(), "2147483647");
    assert_eq!(Value::Bin(0).to_string(), "0");
    assert_eq!(Value::Bin(u32::MAX).to_string(), "11111111111111111111111111111111");
    assert_eq!(Value::from_string("17".to_string()), Value::Int(17));
    assert_eq!(Value::from_string("+17".to_string()), Value::Int(17));
    assert_eq!(Value::from_string("-2147483648".to_string()), Value::Int(i32::MIN));
    assert_eq!(Value::from_string("2147483648".to_string()), Value::Str("2147483648".to_string()));
    assert_eq!(Value::from_string("99999999999".to_string()), Value::Str("99999999999".to_string()));
    assert_eq!(Value::from_string("-".to_string()), Value::Str("-".to_string()));
    assert_eq!(Value::from_string("".to_string()), Value::Str("".to_string()));
    assert_eq!(Value::from_string("1x".to_string()), Value::Str("1x".to_string()));
    let e = ParseError::AccessOutOfBoundsToken { position: 0, total_tokens: 10, caller: "peek".to_string() };
    assert_eq!(e.to_string(), "Access out of bounds token; called by peek at position 0 with total tokens 10");
}

#[test]
fn a_terminating_program_gives_one_outcome() {
    let mut parser = LangParser::new("let x = 2 * 3; for i in 0..2 { print(x); }");
    let mut program = parser.parse().unwrap();
    program.eval().unwrap();
    assert_eq!(program.output, vec!["Atomic { value: Int(6) }".to_string(), "Atomic { value: Int(6) }".to_string()]);
}

fn sample_nodes() -> Vec<Node> {
    let id = |s: &str| Node::Identifier { value: s.to_string() };
    let int = |i: i32| Node::Atomic { value: Value::Int(i) };
    vec![
        Node::BinaryExpression { left: Box::new(id("a")), operator: OperatorKind::Biconditional, right: Box::new(int(-7)) },
        Node::UnaryExpression { operator: OperatorKind::Negation, right: Box::new(id("𝜑")) },
        id("quote\"and\\slash\n"),
        Node::AssignStmt { left: Box::new(Node::Ident { name: "x".to_string(), kind: "var".to_string() }), right: Box::new(int(3)), kind: "Nat".to_string() },
        Node::Atomic { value: Value::Str("s".to_string()) },
        Node::Atomic { value: Value::Bool(true) },
        Node::Atomic { value: Value::Bin(u32::MAX) },
        Node::Atomic { value: Value::Null },
        Node::Call { name: "f".to_string(), arguments: vec![int(1), int(2)], returns: vec![] },
        Node::MethodCall { name: "get".to_string(), target: "m".to_string(), arguments: vec![id("k")], returns: vec![int(0)] },
        Node::MMExpression { expression: "⊢ 𝜑".to_string() },
        Node::Type { name: "Nat".to_string() },
        Node::Conditional { condition: Box::new(id("c")), consequence: vec![Node::Break {}], alternative: vec![Node::EmptyNode] },
        Node::ForLoop { variable: "i".to_string(), range: (Box::new(int(0)), Box::new(int(3))), body: vec![id("b")] },
        Node::Array { elements: vec![int(1), Node::Array { elements: vec![] }] },
        Node::EmptyNode,
        Node::Object { name: "o".to_string(), kind: "k".to_string() },
        Node::Break {},
        Node::IndexExpression { left: Box::new(id("x")), index: Box::new(int(2)) },
        Node::FunctionDecl { name: Box::new(id("g")), arguments: vec![id("p")], returns: vec![], body: vec![Node::Return { value: Box::new(id("p")) }] },
    ]
}

#[test]
fn debug_texts_follow_the_derived_layout() {
    for n in sample_nodes() {
        let r = Node::Return { value: Box::new(n.clone()) };
        assert_eq!(r.to_string(), format!("return {:?}", n));
    }
    let call = Node::Call { name: "h".to_string(), arguments: sample_nodes(), returns: vec![] };
    assert_eq!(call.to_string(), format!("h({:?})", sample_nodes()));
    let id = |s: &str| Node::Identifier { value: s.to_string() };
    let int = |i: i32| Node::Atomic { value: Value::Int(i) };
    let map = Node::HMap { values: vec![(int(2), id("two")), (int(1), id("one"))] };
    assert_eq!(
        Node::Return { value: Box::new(map) }.to_string(),
        "return HMap { values: {Atomic { value: Int(1) }: Identifier { value: \"one\" }, Atomic { value: Int(2) }: Identifier { value: \"two\" }} }"
    );
}

#[test]
fn map_literals_print_in_key_order_with_one_entry_per_key() {
    let int = |i: i32| Node::Atomic { value: Value::Int(i) };
    let text = |s: &str| Node::Atomic { value: Value::Str(s.to_string()) };
    let mut entries: Vec<(Node, Node)> = Vec::new();
    let keys = sample_nodes();
    for (i, k) in keys.iter().enumerate().rev() {
        entries.push((k.clone(), int(i as i32)));
    }
    entries.push((int(-3), text("neg")));
    entries.push((int(10), text("ten")));
    entries.push((text("b"), int(1)));
    entries.push((text("ab"), int(2)));
    entries.push((text("a"), int(3)));
    entries.push((int(10), text("ten again")));
    entries.push((Node::Atomic { value: Value::Bool(false) }, int(4)));
    let expected: BTreeMap<Node, Node> = entries.iter().cloned().collect();
    let map = Node::HMap { values: entries };
    assert_eq!(map.to_string(), format!("{:?}", expected));
    let r = Node::Return { value: Box::new(map) };
    assert_eq!(r.to_string(), format!("return HMap {{ values: {:?} }}", expected));
}
