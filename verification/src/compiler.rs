//! Compiles a program's nodes to a chunk of stack-machine code.
use vstd::prelude::*;
use crate::ast::Ast;
use crate::bytecode::{Chunk, OpCode, SChunk, op_byte, op_of_operator};
use crate::internal_types::text_with;
use crate::node::{Node, SNode, OperatorKind, view_nodes, lemma_view_nodes, value_debug_text, value_debug_string};
use crate::text::owned;
use crate::value::{Value, SValue};

verus! {

/// What compiling gives: a chunk, an error message, or a panic.
pub enum CRes {
    Done(SChunk),
    Failed(Seq<char>),
    Panic,
}

/// Whether a node leaves a value on the stack.
pub open spec fn is_expression(n: SNode) -> bool {
    match n {
        SNode::BinaryExpression { .. } => true,
        SNode::UnaryExpression { .. } => true,
        SNode::Identifier { .. } => true,
        SNode::Atomic { .. } => true,
        SNode::Call { .. } => true,
        SNode::MethodCall { .. } => true,
        SNode::IndexExpression { .. } => true,
        SNode::Array { .. } => true,
        SNode::HMap { .. } => true,
        SNode::Conditional { .. } => true,
        _ => false,
    }
}

/// The chunk with one more byte of code.
pub open spec fn emit(c: SChunk, b: u8) -> SChunk {
    SChunk { code: c.code.push(b), constants: c.constants }
}

/// The chunk with `v` added to the pool and `op` emitted with the index of `v`
/// (modulo 256) as its operand.
pub open spec fn emit_with_constant(c: SChunk, v: SValue, op: OpCode) -> SChunk {
    SChunk {
        code: c.code.push(op_byte(op)).push(c.constants.len() as u8),
        constants: c.constants.push(v),
    }
}

/// The chunk with a jump instruction and two placeholder bytes; the placeholder
/// starts right after the old end of the code plus one.
pub open spec fn emit_jump_spec(c: SChunk, op: OpCode) -> SChunk {
    SChunk { code: c.code.push(op_byte(op)).push(0xffu8).push(0xffu8), constants: c.constants }
}

/// The distance from the placeholder at `offset` to the end of the code.
pub open spec fn jump_distance(c: SChunk, offset: int) -> int {
    c.code.len() - offset - 2
}

/// The chunk with the placeholder at `offset` set to the distance to the end of
/// the code, high byte first; `None` when the distance does not fit in 16 bits.
pub open spec fn patch(c: SChunk, offset: int) -> Option<SChunk> {
    let jump = jump_distance(c, offset);
    if jump > 0xffff {
        None
    } else {
        Some(
            SChunk {
                code: c.code.update(offset, (jump / 256) as u8).update(offset + 1, (jump % 256) as u8),
                constants: c.constants,
            },
        )
    }
}

/// Compiling one node onto a chunk.
pub open spec fn c_node(n: SNode, c: SChunk) -> CRes
    decreases n, 0int,
{
    match n {
        SNode::Atomic { value } => match value {
            SValue::Int(_) => CRes::Done(emit_with_constant(c, value, OpCode::Constant)),
            SValue::Str(_) => CRes::Done(emit_with_constant(c, value, OpCode::Constant)),
            SValue::Bool(_) => CRes::Done(emit_with_constant(c, value, OpCode::Constant)),
            _ => CRes::Failed("Unsupported value type: "@ + value_debug_text(value)),
        },
        SNode::BinaryExpression { left, operator, right } => match c_node(*left, c) {
            CRes::Done(c1) => match c_node(*right, c1) {
                CRes::Done(c2) => match op_of_operator(operator) {
                    Some(op) => CRes::Done(emit(c2, op_byte(op))),
                    None => CRes::Panic,
                },
                other => other,
            },
            other => other,
        },
        SNode::UnaryExpression { operator, right } => match c_node(*right, c) {
            CRes::Done(c1) => if operator == OperatorKind::Subtract {
                CRes::Done(emit(c1, op_byte(OpCode::Negate)))
            } else {
                CRes::Failed("Unsupported unary operator"@)
            },
            other => other,
        },
        SNode::AssignStmt { left, right, kind } => match c_node(*right, c) {
            CRes::Done(c1) => match *left {
                SNode::Identifier { value } => CRes::Done(
                    emit_with_constant(c1, SValue::Str(value), OpCode::DefineGlobal),
                ),
                _ => CRes::Failed("Invalid assignment target"@),
            },
            other => other,
        },
        SNode::Identifier { value } => CRes::Done(
            emit_with_constant(c, SValue::Str(value), OpCode::GetGlobal),
        ),
        SNode::Conditional { condition, consequence, alternative } => match c_node(*condition, c) {
            CRes::Done(c1) => {
                let c2 = emit_jump_spec(c1, OpCode::JumpIfFalse);
                match c_block(consequence, c2) {
                    CRes::Done(c3) => {
                        let c4 = emit_jump_spec(c3, OpCode::Jump);
                        match patch(c4, c1.code.len() + 1int) {
                            Some(c5) => match c_block(alternative, c5) {
                                CRes::Done(c6) => match patch(c6, c3.code.len() + 1int) {
                                    Some(c7) => CRes::Done(c7),
                                    None => CRes::Panic,
                                },
                                other => other,
                            },
                            None => CRes::Panic,
                        }
                    },
                    other => other,
                }
            },
            other => other,
        },
        _ => CRes::Failed("Unsupported AST node"@),
    }
}

/// Compiling a block: every node in turn, the value of each expression but the
/// last popped, and `Nil` pushed where the block ends in a statement or is empty.
pub open spec fn c_block(nodes: Seq<SNode>, c: SChunk) -> CRes
    decreases nodes, nodes.len() + 1,
{
    if nodes.len() == 0 {
        CRes::Done(emit(c, op_byte(OpCode::Nil)))
    } else {
        c_block_from(nodes, 0, c)
    }
}

/// Compiling the nodes of a block from position `i` on.
pub open spec fn c_block_from(nodes: Seq<SNode>, i: int, c: SChunk) -> CRes
    decreases nodes, nodes.len() - i,
{
    if i < 0 || i >= nodes.len() {
        CRes::Done(c)
    } else {
        match c_node(nodes[i], c) {
            CRes::Done(c1) => if i == nodes.len() - 1 {
                if is_expression(nodes[i]) {
                    CRes::Done(c1)
                } else {
                    CRes::Done(emit(c1, op_byte(OpCode::Nil)))
                }
            } else {
                let c2 = if is_expression(nodes[i]) {
                    emit(c1, op_byte(OpCode::Pop))
                } else {
                    c1
                };
                c_block_from(nodes, i + 1, c2)
            },
            other => other,
        }
    }
}

/// Compiling a whole program: its nodes as a block, then `Return`.
pub open spec fn compile_result(nodes: Seq<SNode>) -> CRes {
    match c_block(nodes, SChunk { code: Seq::empty(), constants: Seq::empty() }) {
        CRes::Done(c) => CRes::Done(emit(c, op_byte(OpCode::Return))),
        other => other,
    }
}

/// Turns programs into chunks.
pub struct Compiler;

impl Compiler {
    /// Emits a jump with a two-byte placeholder and returns the placeholder's offset.
    fn emit_jump(op: OpCode, chunk: &mut Chunk) -> (res: usize)
        ensures
            final(chunk)@ == emit_jump_spec(old(chunk)@, op),
            res == old(chunk).code@.len() + 1,
    {
        chunk.write(op.byte());
        chunk.write(0xff);
        chunk.write(0xff);
        chunk.code.len() - 2
    }

    /// Overwrites the placeholder at `offset` with the distance to the end of the code.
    fn patch_jump(offset: usize, chunk: &mut Chunk)
        requires
            offset + 2 <= old(chunk).code@.len(),
            patch(old(chunk)@, offset as int) is Some,
        ensures
            patch(old(chunk)@, offset as int) == Some(final(chunk)@),
    {
        let jump = chunk.code.len() - offset - 2;
        chunk.code.set(offset, (jump / 256) as u8);
        chunk.code.set(offset + 1, (jump % 256) as u8);
    }

    /// Compiles a program: each node in turn, the value of each expression but
    /// the last popped, `Nil` where the program ends in a statement or is
    /// empty, and a final `Return`. Operators other than `+ - * /` in a binary
    /// expression, and jumps longer than 16 bits, are left out.
    pub fn compile(ast: &Ast) -> (res: Result<Chunk, String>)
        requires
            !(compile_result(view_nodes(ast.nodes@)) is Panic),
        ensures
            match compile_result(view_nodes(ast.nodes@)) {
                CRes::Done(c) => res matches Ok(chunk) && chunk@ == c,
                CRes::Failed(m) => res matches Err(e) && e@ == m,
                CRes::Panic => false,
            },
    {
        let mut chunk = Chunk::new();
        match Self::compile_block(&ast.nodes, &mut chunk) {
            Ok(()) => {},
            Err(e) => {
                return Err(e);
            },
        }
        chunk.write(OpCode::Return.byte());
        Ok(chunk)
    }

    /// Compiles one node onto the chunk.
    fn compile_node(node: &Node, chunk: &mut Chunk) -> (res: Result<(), String>)
        requires
            !(c_node(node@, old(chunk)@) is Panic),
        ensures
            final(chunk).code@.len() >= old(chunk).code@.len(),
            match c_node(node@, old(chunk)@) {
                CRes::Done(c) => res is Ok && final(chunk)@ == c,
                CRes::Failed(m) => res matches Err(e) && e@ == m,
                CRes::Panic => false,
            },
        decreases node@, 0int,
    {
        proof {
            reveal_with_fuel(crate::node::view_node, 2);
        }
        match node {
            Node::Atomic { value } => match value {
                Value::Int(i) => {
                    let index = chunk.add_constant(Value::Int(*i));
                    chunk.write(OpCode::Constant.byte());
                    chunk.write(index);
                },
                Value::Str(s) => {
                    let index = chunk.add_constant(Value::Str(s.clone()));
                    chunk.write(OpCode::Constant.byte());
                    chunk.write(index);
                },
                Value::Bool(b) => {
                    let index = chunk.add_constant(Value::Bool(*b));
                    chunk.write(OpCode::Constant.byte());
                    chunk.write(index);
                },
                _ => {
                    return Err(text_with("Unsupported value type: ", &value_debug_string(value)));
                },
            },
            Node::BinaryExpression { left, operator, right } => {
                match Self::compile_node(left, chunk) {
                    Ok(()) => {},
                    Err(e) => {
                        return Err(e);
                    },
                }
                match Self::compile_node(right, chunk) {
                    Ok(()) => {},
                    Err(e) => {
                        return Err(e);
                    },
                }
                let op_code = OpCode::from(*operator);
                chunk.write(op_code.byte());
            },
            Node::UnaryExpression { operator, right } => {
                match Self::compile_node(right, chunk) {
                    Ok(()) => {},
                    Err(e) => {
                        return Err(e);
                    },
                }
                match operator {
                    OperatorKind::Subtract => chunk.write(OpCode::Negate.byte()),
                    _ => {
                        return Err(owned("Unsupported unary operator"));
                    },
                }
            },
            Node::AssignStmt { left, right, kind } => {
                match Self::compile_node(right, chunk) {
                    Ok(()) => {},
                    Err(e) => {
                        return Err(e);
                    },
                }
                if let Node::Identifier { value: name } = &**left {
                    let name_index = chunk.add_constant(Value::Str(name.clone()));
                    chunk.write(OpCode::DefineGlobal.byte());
                    chunk.write(name_index);
                } else {
                    return Err(owned("Invalid assignment target"));
                }
            },
            Node::Identifier { value: name } => {
                let name_index = chunk.add_constant(Value::Str(name.clone()));
                chunk.write(OpCode::GetGlobal.byte());
                chunk.write(name_index);
            },
            Node::Conditional { condition, consequence, alternative } => {
                match Self::compile_node(condition, chunk) {
                    Ok(()) => {},
                    Err(e) => {
                        return Err(e);
                    },
                }
                let else_jump = Self::emit_jump(OpCode::JumpIfFalse, chunk);
                match Self::compile_block(consequence, chunk) {
                    Ok(()) => {},
                    Err(e) => {
                        return Err(e);
                    },
                }
                let end_jump = Self::emit_jump(OpCode::Jump, chunk);
                Self::patch_jump(else_jump, chunk);
                match Self::compile_block(alternative, chunk) {
                    Ok(()) => {},
                    Err(e) => {
                        return Err(e);
                    },
                }
                Self::patch_jump(end_jump, chunk);
            },
            _ => {
                return Err(owned("Unsupported AST node"));
            },
        }
        Ok(())
    }

    /// Compiles a block onto the chunk (see [`c_block`]).
    fn compile_block(nodes: &Vec<Node>, chunk: &mut Chunk) -> (res: Result<(), String>)
        requires
            !(c_block(view_nodes(nodes@), old(chunk)@) is Panic),
        ensures
            final(chunk).code@.len() >= old(chunk).code@.len(),
            match c_block(view_nodes(nodes@), old(chunk)@) {
                CRes::Done(c) => res is Ok && final(chunk)@ == c,
                CRes::Failed(m) => res matches Err(e) && e@ == m,
                CRes::Panic => false,
            },
        decreases view_nodes(nodes@), 1int,
    {
        let ghost vs = view_nodes(nodes@);
        let ghost target = c_block(vs, old(chunk)@);
        let ghost start = old(chunk).code@.len();
        proof {
            lemma_view_nodes(nodes@);
        }
        if nodes.len() == 0 {
            chunk.write(OpCode::Nil.byte());
            return Ok(());
        }
        let last = nodes.len() - 1;
        let mut i: usize = 0;
        while i < last
            invariant
                last + 1 == nodes.len(),
                i <= last,
                vs == view_nodes(nodes@),
                vs.len() == nodes.len(),
                forall|j: int| 0 <= j < nodes.len() ==> #[trigger] vs[j] == nodes@[j]@,
                c_block_from(vs, i as int, chunk@) == target,
                !(target is Panic),
                chunk.code@.len() >= start,
                start == old(chunk).code@.len(),
                target == c_block(vs, old(chunk)@),
            decreases last - i,
        {
            assert(vs[i as int] == nodes@[i as int]@);
            match Self::compile_node(&nodes[i], chunk) {
                Ok(()) => {},
                Err(e) => {
                    return Err(e);
                },
            }
            if is_expression_node(&nodes[i]) {
                chunk.write(OpCode::Pop.byte());
            }
            i += 1;
        }
        assert(vs[i as int] == nodes@[i as int]@);
        match Self::compile_node(&nodes[i], chunk) {
            Ok(()) => {},
            Err(e) => {
                return Err(e);
            },
        }
        if !is_expression_node(&nodes[i]) {
            chunk.write(OpCode::Nil.byte());
        }
        Ok(())
    }
}

/// Whether a node leaves a value on the stack.
pub fn is_expression_node(node: &Node) -> (res: bool)
    ensures
        res == is_expression(node@),
{
    match node {
        Node::BinaryExpression { .. } => true,
        Node::UnaryExpression { .. } => true,
        Node::Identifier { .. } => true,
        Node::Atomic { .. } => true,
        Node::Call { .. } => true,
        Node::MethodCall { .. } => true,
        Node::IndexExpression { .. } => true,
        Node::Array { .. } => true,
        Node::HMap { .. } => true,
        Node::Conditional { .. } => true,
        _ => false,
    }
}

} // verus!
