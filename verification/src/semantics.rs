//! What evaluating a program does, stated over the models of nodes.
//!
//! A run either gives a value, fails with a message, panics, or runs out of
//! fuel. Fuel bounds the nesting of evaluation; a program terminates when some
//! amount of fuel is enough.
use vstd::prelude::*;
use crate::node::{
    SNode, OperatorKind, debug_text, value_debug_text, str_debug_text, left_result_debug_text,
    node_left, node_right, node_val, node_type_name, unexpected_token_text,
};
use crate::value::{SValue, values_match};
use crate::internal_types::{s_fetch_array, s_fetch_hash_map, s_fetch_string, s_fetch_integer};

verus! {

/// The state a program runs in: the declared names and the printed lines.
pub struct Env {
    pub decls: Map<Seq<char>, SNode>,
    pub out: Seq<Seq<char>>,
}

/// The outcome of evaluating something.
pub enum Run<T> {
    Done(Env, T),
    Failed(Env, Seq<char>),
    Panic,
    Exhausted,
}

/// The outcome of changing the declarations.
pub enum Upd {
    Done(Map<Seq<char>, SNode>),
    Failed(Seq<char>),
    Panic,
}

/// `e` with other declarations.
pub open spec fn with_decls(e: Env, d: Map<Seq<char>, SNode>) -> Env {
    Env { decls: d, out: e.out }
}

/// `e` after printing a line.
pub open spec fn printed(e: Env, line: Seq<char>) -> Env {
    Env { decls: e.decls, out: e.out.push(line) }
}

/// An atomic node.
pub open spec fn atomic(v: SValue) -> SNode {
    SNode::Atomic { value: v }
}

/// An assignment to a plain variable.
pub open spec fn var_assign(name: Seq<char>, value: SNode, kind: Seq<char>) -> SNode {
    SNode::AssignStmt {
        left: Box::new(SNode::Ident { name, kind: "var"@ }),
        right: Box::new(value),
        kind,
    }
}

/// The index an atomic integer node stands for.
pub open spec fn s_extract_index(n: SNode) -> Result<usize, Seq<char>> {
    match n {
        SNode::Atomic { value: SValue::Int(i) } => Ok(i as usize),
        _ => Err("expected atomic but received "@ + debug_text(n) + " while extracting index"@),
    }
}

/// Entering a declaration: an assignment binds its target (or one element of
/// an array), a function is bound to its name, a map literal to the empty
/// name; atoms and empty nodes change nothing.
pub open spec fn s_upsert(d: Map<Seq<char>, SNode>, n: SNode) -> Upd {
    match n {
        SNode::AssignStmt { left, right, .. } => match *left {
            SNode::Identifier { value } => Upd::Done(d.insert(value, *right)),
            SNode::Ident { name, .. } => Upd::Done(d.insert(name, *right)),
            SNode::IndexExpression { left: l2, index } => match s_fetch_string(*l2) {
                Err(m) => Upd::Failed(m),
                Ok(name) => if !d.contains_key(name) {
                    Upd::Panic
                } else {
                    match s_fetch_array(d[name]) {
                        Err(m) => Upd::Failed(m),
                        Ok(els) => match s_extract_index(*index) {
                            Err(m) => Upd::Failed(m),
                            Ok(i) => if i >= els.len() {
                                Upd::Panic
                            } else {
                                Upd::Done(
                                    d.insert(name, SNode::Array { elements: els.update(i as int, *right) }),
                                )
                            },
                        },
                    }
                },
            },
            _ => Upd::Failed("invalid type "@ + debug_text(*left) + " for left branch"@),
        },
        SNode::FunctionDecl { name, .. } => match s_fetch_string(*name) {
            Err(m) => Upd::Failed(m),
            Ok(k) => Upd::Done(d.insert(k, n)),
        },
        SNode::Atomic { .. } => Upd::Done(d),
        SNode::EmptyNode => Upd::Done(d),
        SNode::HMap { .. } => Upd::Done(d.insert(Seq::empty(), n)),
        _ => Upd::Failed("Invalid node type: "@ + debug_text(n)),
    }
}

/// Looking up a declared name; a missing name is a panic.
pub open spec fn lookup(e: Env, name: Seq<char>) -> Run<SNode> {
    if e.decls.contains_key(name) {
        Run::Done(e, e.decls[name])
    } else {
        Run::Panic
    }
}

/// Replacing a variable by its declared value.
pub open spec fn s_replace_var(e: Env, n: SNode) -> Run<SNode> {
    match n {
        SNode::AssignStmt { left, .. } => match s_fetch_string(*left) {
            Err(m) => Run::Failed(e, m),
            Ok(name) => lookup(e, name),
        },
        SNode::Object { name, .. } => lookup(e, name),
        SNode::Atomic { .. } => Run::Done(e, n),
        SNode::IndexExpression { left, index } => s_replace_var_assign(e, *left, *index),
        SNode::Ident { name, .. } => lookup(e, name),
        _ => Run::Done(e, n),
    }
}

/// Reading one element of a declared array (or the first element of a nested one).
pub open spec fn s_replace_var_assign(e: Env, n: SNode, index: SNode) -> Run<SNode> {
    match n {
        SNode::AssignStmt { left, .. } => match s_fetch_string(*left) {
            Err(m) => Run::Failed(e, m),
            Ok(name) => if !e.decls.contains_key(name) {
                Run::Panic
            } else {
                match s_fetch_array(e.decls[name]) {
                    Err(m) => Run::Failed(e, m),
                    Ok(els) => match s_extract_index(index) {
                        Err(m) => Run::Failed(e, m),
                        Ok(i) => if i >= els.len() {
                            Run::Panic
                        } else {
                            Run::Done(e, atomic(node_val(els[i as int])))
                        },
                    },
                }
            },
        },
        SNode::IndexExpression { index: inner, .. } => match s_fetch_string(n) {
            Err(m) => Run::Failed(e, m),
            Ok(name) => if !e.decls.contains_key(name) {
                Run::Panic
            } else {
                match s_fetch_integer(*inner) {
                    Err(m) => Run::Failed(e, m),
                    Ok(outer) => match s_fetch_array(e.decls[name]) {
                        Err(m) => Run::Failed(e, m),
                        Ok(els) => if (outer as usize) >= els.len() {
                            Run::Panic
                        } else {
                            match s_fetch_array(els[(outer as usize) as int]) {
                                Err(m) => Run::Failed(e, m),
                                Ok(child) => if child.len() == 0 {
                                    Run::Panic
                                } else {
                                    Run::Done(e, child[0])
                                },
                            }
                        },
                    },
                }
            },
        },
        _ => Run::Failed(e, "Invalid type"@),
    }
}

/// Replacing an operand by its value where it is an assignment or (for `+`) a
/// typed identifier.
pub open spec fn s_operand(e: Env, n: SNode, also_ident: bool) -> Run<SNode> {
    if n is AssignStmt || (also_ident && n is Ident) {
        s_replace_var(e, n)
    } else {
        Run::Done(e, n)
    }
}

/// Integer arithmetic of the evaluator; an overflow or a division by zero panics.
pub open spec fn int_arith(op: OperatorKind, a: i32, b: i32) -> Option<i32> {
    let r: int = match op {
        OperatorKind::Add => a + b,
        OperatorKind::Subtract => a - b,
        _ => a * b,
    };
    if op == OperatorKind::Divide {
        a.checked_div(b)
    } else if op == OperatorKind::Modulo {
        a.checked_rem(b)
    } else if i32::MIN <= r <= i32::MAX {
        Some(r as i32)
    } else {
        None
    }
}

/// A bitwise connective on binary numbers.
pub open spec fn bit_op(op: OperatorKind, a: u32, b: u32) -> u32 {
    match op {
        OperatorKind::BitwiseAnd => a & b,
        OperatorKind::BitwiseOr => a | b,
        _ => a ^ b,
    }
}

/// A shift amount that does not overflow.
pub open spec fn shift_ok(b: i32) -> bool {
    0 <= b < 32
}

/// The value of two atomic operands under a binary operator.
pub open spec fn atomic_binary(e: Env, op: OperatorKind, lv: SValue, rv: SValue) -> Run<SNode> {
    if op == OperatorKind::Add || op == OperatorKind::Subtract || op == OperatorKind::Multiply
        || op == OperatorKind::Divide || op == OperatorKind::Modulo {
        match (lv, rv) {
            (SValue::Int(a), SValue::Int(b)) => match int_arith(op, a, b) {
                Some(r) => Run::Done(e, atomic(SValue::Int(r))),
                None => Run::Panic,
            },
            _ => Run::Failed(e, "Invalid types"@),
        }
    } else if op == OperatorKind::BitwiseAnd || op == OperatorKind::BitwiseOr || op
        == OperatorKind::BitwiseXor {
        match (lv, rv) {
            (SValue::Bin(a), SValue::Bin(b)) => Run::Done(e, atomic(SValue::Bin(bit_op(op, a, b)))),
            (SValue::Int(a), SValue::Bin(b)) => Run::Done(
                e,
                atomic(SValue::Bin(bit_op(op, a as u32, b))),
            ),
            (SValue::Int(a), SValue::Int(b)) => Run::Done(
                e,
                atomic(SValue::Bin(bit_op(op, a as u32, b as u32))),
            ),
            _ => Run::Failed(e, "Invalid types"@),
        }
    } else if op == OperatorKind::ShiftLeft {
        match (lv, rv) {
            (SValue::Bin(a), SValue::Int(b)) => if shift_ok(b) {
                Run::Done(e, atomic(SValue::Bin(a << (b as u32))))
            } else {
                Run::Panic
            },
            (SValue::Int(a), SValue::Bin(b)) => Run::Done(e, atomic(SValue::Bin((a as u32) & b))),
            (SValue::Int(a), SValue::Int(b)) => if shift_ok(b) {
                Run::Done(e, atomic(SValue::Bin((a as u32) << (b as u32))))
            } else {
                Run::Panic
            },
            _ => Run::Failed(e, "Invalid types"@),
        }
    } else {
        match (lv, rv) {
            (SValue::Bin(a), SValue::Int(b)) => if shift_ok(b) {
                Run::Done(e, atomic(SValue::Bin(a >> (b as u32))))
            } else {
                Run::Panic
            },
            _ => Run::Failed(e, "Invalid types"@),
        }
    }
}

/// The operators the evaluator knows for binary expressions.
pub open spec fn evaluated_binary_operator(op: OperatorKind) -> bool {
    match op {
        OperatorKind::Add | OperatorKind::Subtract | OperatorKind::Multiply
        | OperatorKind::Divide | OperatorKind::Modulo | OperatorKind::BitwiseAnd
        | OperatorKind::BitwiseOr | OperatorKind::BitwiseXor | OperatorKind::ShiftLeft
        | OperatorKind::ShiftRight => true,
        _ => false,
    }
}

/// Evaluating a binary expression: variables among the operands are replaced
/// by their values, then atomic operands are combined. For `+` two operands
/// that are not both atomic are an error; for the other operators the result
/// is then the empty node.
pub open spec fn s_eval_binary(e: Env, l: SNode, op: OperatorKind, r: SNode) -> Run<SNode> {
    if !evaluated_binary_operator(op) {
        Run::Failed(e, "Unknown operator"@)
    } else {
        let also_ident = op == OperatorKind::Add;
        match s_operand(e, l, also_ident) {
            Run::Done(_, l2) => match s_operand(e, r, also_ident) {
                Run::Done(_, r2) => match (l2, r2) {
                    (SNode::Atomic { value: lv }, SNode::Atomic { value: rv }) => atomic_binary(
                        e,
                        op,
                        lv,
                        rv,
                    ),
                    _ => if also_ident {
                        Run::Failed(e, "Invalid type"@)
                    } else {
                        Run::Done(e, SNode::EmptyNode)
                    },
                },
                other => other,
            },
            other => other,
        }
    }
}

/// Evaluating a unary expression: only negation of a binary number is known.
pub open spec fn s_eval_unary(e: Env, r: SNode, op: OperatorKind) -> Run<SNode> {
    if op != OperatorKind::Negation {
        Run::Failed(e, "Unknown operator"@)
    } else {
        match s_operand(e, r, false) {
            Run::Done(_, r2) => match r2 {
                SNode::Atomic { value } => match value {
                    SValue::Bin(b) => Run::Done(e, atomic(SValue::Bin(!b))),
                    _ => Run::Failed(e, "Invalid types"@),
                },
                _ => Run::Done(e, r2),
            },
            other => other,
        }
    }
}

/// Reading an element of an array (of an array of arrays, or a character of a
/// string) that an index expression names.
pub open spec fn s_eval_array(e: Env, n: SNode) -> Run<SNode>
    decreases n,
{
    match n {
        SNode::IndexExpression { left, index: sub_index } => match *left {
            SNode::IndexExpression { left: l2, index } => match s_eval_array(e, *l2) {
                Run::Done(_, res) => match s_fetch_string(res) {
                    Err(m) => Run::Failed(e, m),
                    Ok(name) => if !e.decls.contains_key(name) {
                        Run::Panic
                    } else {
                        match s_fetch_array(e.decls[name]) {
                            Err(m) => Run::Failed(e, m),
                            Ok(array) => match s_fetch_integer(*index) {
                                Err(m) => Run::Failed(e, m),
                                Ok(ix) => match s_fetch_integer(*sub_index) {
                                    Err(m) => Run::Failed(e, m),
                                    Ok(sx) => if (ix as usize) >= array.len() {
                                        Run::Panic
                                    } else {
                                        match s_fetch_array(array[(ix as usize) as int]) {
                                            Err(m) => Run::Failed(e, m),
                                            Ok(inner) => if (sx as usize) >= inner.len() {
                                                Run::Panic
                                            } else {
                                                Run::Done(e, inner[(sx as usize) as int])
                                            },
                                        }
                                    },
                                },
                            },
                        }
                    },
                },
                other => other,
            },
            SNode::AssignStmt { left: l2, .. } => match *l2 {
                SNode::Ident { name, .. } => if !e.decls.contains_key(name) {
                    Run::Panic
                } else {
                    let sn = e.decls[name];
                    if sn is Array {
                        match s_fetch_array(sn) {
                            Err(m) => Run::Failed(e, m),
                            Ok(array) => match s_fetch_integer(*sub_index) {
                                Err(m) => Run::Failed(e, m),
                                Ok(ix) => if (ix as usize) >= array.len() {
                                    Run::Panic
                                } else {
                                    Run::Done(e, array[(ix as usize) as int])
                                },
                            },
                        }
                    } else if sn is Atomic {
                        match s_replace_var(e, SNode::Ident { name, kind: Seq::empty() }) {
                            Run::Done(_, replaced) => match s_fetch_string(replaced) {
                                Err(m) => Run::Failed(e, m),
                                Ok(s) => match s_replace_var(e, *sub_index) {
                                    Run::Done(_, ri) => match s_fetch_integer(ri) {
                                        Err(m) => Run::Failed(e, m),
                                        Ok(ix) => {
                                            let bytes = vstd::utf8::encode_utf8(s);
                                            if (ix as usize) >= bytes.len() {
                                                Run::Panic
                                            } else {
                                                Run::Done(
                                                    e,
                                                    atomic(
                                                        SValue::Str(
                                                            seq![bytes[(ix as usize) as int] as char],
                                                        ),
                                                    ),
                                                )
                                            }
                                        },
                                    },
                                    other => other,
                                },
                            },
                            other => other,
                        }
                    } else {
                        Run::Failed(e, "Invalid type"@)
                    }
                },
                _ => Run::Done(e, SNode::EmptyNode),
            },
            _ => Run::Done(e, SNode::EmptyNode),
        },
        SNode::Ident { .. } => Run::Done(e, n),
        _ => Run::Failed(
            e,
            "expected index expression but received "@ + debug_text(n)
                + " while evaluating array"@,
        ),
    }
}

/// The entry of a map literal for `key`, if any.
pub open spec fn pairs_get(s: Seq<(SNode, SNode)>, key: SNode) -> Option<SNode>
    decreases s.len(),
{
    if s.len() == 0 {
        None
    } else if s[0].0 == key {
        Some(s[0].1)
    } else {
        pairs_get(s.drop_first(), key)
    }
}

/// A map literal with `key` bound to `value`: the entry for `key` is replaced
/// where there is one, else the entry is added at the end.
pub open spec fn pairs_insert(s: Seq<(SNode, SNode)>, key: SNode, value: SNode) -> Seq<(SNode, SNode)>
    decreases s.len(),
{
    if s.len() == 0 {
        seq![(key, value)]
    } else if s[0].0 == key {
        s.update(0, (key, value))
    } else {
        seq![s[0]] + pairs_insert(s.drop_first(), key, value)
    }
}

/// Calling a method on a declared map: `push` adds an entry, `get` reads one.
pub open spec fn s_eval_method_call(e: Env, name: Seq<char>, target: Seq<char>, args: Seq<SNode>) -> Run<SNode> {
    if name == "push"@ {
        if !e.decls.contains_key(target) {
            Run::Panic
        } else {
            match s_fetch_hash_map(e.decls[target]) {
                Err(m) => Run::Failed(e, m),
                Ok(vals) => if args.len() < 2 {
                    Run::Panic
                } else {
                    Run::Done(
                        with_decls(
                            e,
                            e.decls.insert(
                                target,
                                SNode::HMap { values: pairs_insert(vals, args[0], args[1]) },
                            ),
                        ),
                        SNode::EmptyNode,
                    )
                },
            }
        }
    } else if name == "get"@ {
        if !e.decls.contains_key(target) {
            Run::Panic
        } else {
            match s_fetch_hash_map(e.decls[target]) {
                Err(m) => Run::Failed(e, m),
                Ok(vals) => if args.len() < 1 {
                    Run::Panic
                } else {
                    match pairs_get(vals, args[0]) {
                        Some(v) => Run::Done(e, v),
                        None => Run::Panic,
                    }
                },
            }
        }
    } else {
        Run::Failed(e, "Unknown method call "@ + name)
    }
}

/// Binding the parameters of a function to the arguments of a call, from the
/// `i`-th on; a call with fewer arguments than parameters panics.
pub open spec fn s_bind_args(e: Env, params: Seq<SNode>, args: Seq<SNode>, i: int) -> Run<SNode>
    decreases params.len() - i,
{
    if i >= params.len() || i < 0 {
        Run::Done(e, SNode::EmptyNode)
    } else {
        match s_fetch_string(params[i]) {
            Err(m) => Run::Failed(e, m),
            Ok(name) => if i >= args.len() {
                Run::Panic
            } else {
                s_bind_args(with_decls(e, e.decls.insert(name, args[i])), params, args, i + 1)
            },
        }
    }
}

/// Dropping the parameters of a function after a call, from the `i`-th on.
pub open spec fn s_unbind_args(e: Env, params: Seq<SNode>, i: int) -> Run<SNode>
    decreases params.len() - i,
{
    if i >= params.len() || i < 0 {
        Run::Done(e, SNode::EmptyNode)
    } else {
        match s_fetch_string(params[i]) {
            Err(m) => Run::Failed(e, m),
            Ok(name) => s_unbind_args(with_decls(e, e.decls.remove(name)), params, i + 1),
        }
    }
}

/// The line `print` writes for the element an index expression reads.
pub open spec fn index_print_line(x: SNode) -> Seq<char> {
    match x {
        SNode::Atomic { value } => match value {
            SValue::Str(s) => "["@ + str_debug_text(s) + "]"@,
            _ => value_debug_text(value),
        },
        _ => debug_text(x),
    }
}

/// The left part of a node as a result.
pub open spec fn left_result(n: SNode) -> Result<SNode, Seq<char>> {
    match node_left(n) {
        Some(l) => Ok(l),
        None => Err(unexpected_token_text(n)),
    }
}

/// Evaluating a node.
pub open spec fn s_eval_node(e: Env, n: SNode, fuel: nat) -> Run<SNode>
    decreases fuel, 0nat,
{
    if fuel == 0 {
        Run::Exhausted
    } else {
        let f = (fuel - 1) as nat;
        match n {
            SNode::BinaryExpression { left, operator, right } => s_eval_binary(e, *left, operator, *right),
            SNode::UnaryExpression { operator, right } => s_eval_unary(e, *right, operator),
            SNode::Identifier { .. } => Run::Done(e, SNode::EmptyNode),
            SNode::AssignStmt { left, right, kind } => match *left {
                SNode::IndexExpression { left: l2, index } => match s_replace_var(e, *index) {
                    Run::Done(_, replaced) => match s_eval_node(e, replaced, f) {
                        Run::Done(e2, res) => match s_upsert(
                            e2.decls,
                            SNode::AssignStmt {
                                left: Box::new(SNode::IndexExpression { left: l2, index: Box::new(res) }),
                                right,
                                kind,
                            },
                        ) {
                            Upd::Done(d) => Run::Done(with_decls(e2, d), res),
                            Upd::Failed(m) => Run::Failed(e2, m),
                            Upd::Panic => Run::Panic,
                        },
                        other => other,
                    },
                    other => other,
                },
                _ => {
                    let r = match *right {
                        SNode::Call { name, arguments, .. } => s_eval_call(e, name, arguments, f),
                        _ => match s_replace_var(e, *right) {
                            Run::Done(_, replaced) => s_eval_node(e, replaced, f),
                            other => other,
                        },
                    };
                    match r {
                        Run::Done(e2, res) => match s_upsert(
                            e2.decls,
                            SNode::AssignStmt { left, right: Box::new(res), kind },
                        ) {
                            Upd::Done(d) => Run::Done(with_decls(e2, d), res),
                            Upd::Failed(m) => Run::Failed(e2, m),
                            Upd::Panic => Run::Panic,
                        },
                        other => other,
                    }
                },
            },
            SNode::Call { name, arguments, .. } => match s_eval_call(e, name, arguments, f) {
                Run::Done(e2, _) => Run::Done(e2, SNode::EmptyNode),
                other => other,
            },
            SNode::Atomic { .. } => Run::Done(e, n),
            SNode::MMExpression { .. } => Run::Done(e, SNode::EmptyNode),
            SNode::Type { .. } => Run::Done(e, SNode::EmptyNode),
            SNode::Conditional { condition, consequence, alternative } => match s_eval_conditional(
                e,
                *condition,
                consequence,
                alternative,
                f,
            ) {
                Run::Done(e2, _) => Run::Done(e2, SNode::EmptyNode),
                other => other,
            },
            SNode::ForLoop { variable, range, body } => match s_eval_for(
                e,
                variable,
                *range.0,
                *range.1,
                body,
                f,
            ) {
                Run::Done(e2, _) => Run::Done(e2, SNode::EmptyNode),
                other => other,
            },
            SNode::EmptyNode => Run::Done(e, SNode::EmptyNode),
            SNode::Break => Run::Failed(e, "Break"@),
            SNode::Array { .. } => Run::Done(e, n),
            SNode::IndexExpression { left, index } => match *left {
                SNode::AssignStmt { left: l2, .. } => match s_fetch_string(*l2) {
                    Err(m) => Run::Failed(e, m),
                    Ok(name) => if !e.decls.contains_key(name) {
                        Run::Panic
                    } else {
                        match s_fetch_array(e.decls[name]) {
                            Err(m) => Run::Failed(e, m),
                            Ok(els) => match s_extract_index(*index) {
                                Err(m) => Run::Failed(e, m),
                                Ok(i) => if i >= els.len() {
                                    Run::Panic
                                } else {
                                    Run::Done(e, atomic(node_val(els[i as int])))
                                },
                            },
                        }
                    },
                },
                _ => Run::Failed(e, "Invalid type"@),
            },
            SNode::FunctionDecl { .. } => match s_upsert(e.decls, n) {
                Upd::Done(d) => Run::Done(with_decls(e, d), SNode::EmptyNode),
                Upd::Failed(m) => Run::Failed(e, m),
                Upd::Panic => Run::Panic,
            },
            SNode::Return { value } => s_replace_var(e, *value),
            SNode::HMap { .. } => Run::Done(e, SNode::HMap { values: Seq::empty() }),
            SNode::MethodCall { name, target, arguments, .. } => s_eval_method_call(
                e,
                name,
                target,
                arguments,
            ),
            _ => Run::Panic,
        }
    }
}

/// Calling `print`, `reduce`, `len` or a declared function.
pub open spec fn s_eval_call(e: Env, name: Seq<char>, args: Seq<SNode>, fuel: nat) -> Run<SNode>
    decreases fuel, 0nat,
{
    if fuel == 0 {
        Run::Exhausted
    } else {
        let f = (fuel - 1) as nat;
        if name == "print"@ {
            if args.len() == 0 {
                Run::Panic
            } else {
                match node_left(args[0]) {
                    None => Run::Failed(e, unexpected_token_text(args[0])),
                    Some(temp) => match temp {
                        SNode::Call { name: n2, arguments: a2, .. } => match s_eval_call(e, n2, a2, f) {
                            Run::Done(e2, x) => Run::Done(
                                printed(e2, value_debug_text(node_val(x))),
                                SNode::EmptyNode,
                            ),
                            other => other,
                        },
                        SNode::IndexExpression { .. } => match s_eval_array(e, temp) {
                            Run::Done(e2, x) => Run::Done(printed(e2, index_print_line(x)), SNode::EmptyNode),
                            other => other,
                        },
                        _ => match s_replace_var(e, temp) {
                            Run::Done(e2, v) => Run::Done(printed(e2, debug_text(v)), SNode::EmptyNode),
                            _ => Run::Panic,
                        },
                    },
                }
            }
        } else if name == "reduce"@ {
            if args.len() == 0 {
                Run::Panic
            } else {
                Run::Done(printed(e, left_result_debug_text(left_result(args[0]))), SNode::EmptyNode)
            }
        } else if name == "len"@ {
            if args.len() == 0 {
                Run::Panic
            } else {
                match s_fetch_string(args[0]) {
                    Err(m) => Run::Failed(e, m),
                    Ok(nm) => if !e.decls.contains_key(nm) {
                        Run::Panic
                    } else {
                        let n = e.decls[nm];
                        if n is Array {
                            match s_fetch_array(n) {
                                Err(m) => Run::Failed(e, m),
                                Ok(els) => Run::Done(e, atomic(SValue::Int(els.len() as i32))),
                            }
                        } else if n is Atomic {
                            match s_fetch_string(n) {
                                Err(m) => Run::Failed(e, m),
                                Ok(s) => Run::Done(
                                    e,
                                    atomic(SValue::Int((vstd::utf8::encode_utf8(s).len() as usize) as i32)),
                                ),
                            }
                        } else {
                            Run::Failed(e, "Unknown type "@ + node_type_name(n))
                        }
                    },
                }
            }
        } else if !e.decls.contains_key(name) {
            Run::Panic
        } else {
            match s_eval_function(e, e.decls[name], args, f) {
                Run::Done(e2, node) => match s_upsert(e2.decls, node) {
                    Upd::Done(d) => Run::Done(with_decls(e2, d), node),
                    Upd::Failed(m) => Run::Failed(e2, m),
                    Upd::Panic => Run::Panic,
                },
                other => other,
            }
        }
    }
}

/// Running a declared function on the arguments of a call: the parameters are
/// bound, the body runs up to its first `return`, and the parameters are dropped.
pub open spec fn s_eval_function(e: Env, func: SNode, args: Seq<SNode>, fuel: nat) -> Run<SNode>
    decreases fuel, 0nat,
{
    if fuel == 0 {
        Run::Exhausted
    } else {
        match func {
            SNode::FunctionDecl { arguments: params, body, .. } => match s_bind_args(e, params, args, 0) {
                Run::Done(e1, _) => match s_eval_body(e1, body, 0, (fuel - 1) as nat) {
                    Run::Done(e2, ret) => match s_unbind_args(e2, params, 0) {
                        Run::Done(e3, _) => Run::Done(e3, ret),
                        other => other,
                    },
                    other => other,
                },
                other => other,
            },
            _ => Run::Done(e, SNode::EmptyNode),
        }
    }
}

/// Running the body of a function from its `i`-th node: a `return` gives the
/// value of its variable.
pub open spec fn s_eval_body(e: Env, body: Seq<SNode>, i: int, fuel: nat) -> Run<SNode>
    decreases fuel, body.len() - i,
{
    if i >= body.len() || i < 0 {
        Run::Done(e, SNode::EmptyNode)
    } else {
        match body[i] {
            SNode::Return { value } => s_replace_var(e, *value),
            _ => match s_eval_node(e, body[i], fuel) {
                Run::Done(e2, _) => s_eval_body(e2, body, i + 1, fuel),
                other => other,
            },
        }
    }
}

/// Evaluating nodes from the `i`-th on, entering each result as a declaration.
pub open spec fn s_eval_block_upsert(e: Env, nodes: Seq<SNode>, i: int, fuel: nat) -> Run<SNode>
    decreases fuel, nodes.len() - i,
{
    if i >= nodes.len() || i < 0 {
        Run::Done(e, SNode::EmptyNode)
    } else {
        match s_eval_node(e, nodes[i], fuel) {
            Run::Done(e2, res) => match s_upsert(e2.decls, res) {
                Upd::Done(d) => s_eval_block_upsert(with_decls(e2, d), nodes, i + 1, fuel),
                Upd::Failed(m) => Run::Failed(e2, m),
                Upd::Panic => Run::Panic,
            },
            other => other,
        }
    }
}

/// Evaluating nodes from the `i`-th on.
pub open spec fn s_eval_block(e: Env, nodes: Seq<SNode>, i: int, fuel: nat) -> Run<SNode>
    decreases fuel, nodes.len() - i,
{
    if i >= nodes.len() || i < 0 {
        Run::Done(e, SNode::EmptyNode)
    } else {
        match s_eval_node(e, nodes[i], fuel) {
            Run::Done(e2, _) => s_eval_block(e2, nodes, i + 1, fuel),
            other => other,
        }
    }
}

/// The branch a conditional takes: `==` compares the values of the left parts
/// of both sides, `or` compares two pairs, `<` and `>` take the consequence
/// whenever both sides are integers, and a literal `true` takes the consequence.
pub open spec fn s_eval_conditional(
    e: Env,
    cond: SNode,
    consequence: Seq<SNode>,
    alternative: Seq<SNode>,
    fuel: nat,
) -> Run<SNode>
    decreases fuel, 0nat,
{
    if fuel == 0 {
        Run::Exhausted
    } else {
        let f = (fuel - 1) as nat;
        match cond {
            SNode::BinaryExpression { left, operator, right } => {
                if operator == OperatorKind::IsEqual {
                    match node_left(*left) {
                        None => Run::Failed(e, unexpected_token_text(*left)),
                        Some(pl) => match s_replace_var(e, pl) {
                            Run::Done(_, rl) => match node_left(*right) {
                                None => Run::Failed(e, unexpected_token_text(*right)),
                                Some(pr) => match s_replace_var(e, pr) {
                                    Run::Done(_, rr) => if values_match(node_val(rl), node_val(rr)) {
                                        s_eval_block_upsert(e, consequence, 0, f)
                                    } else {
                                        s_eval_block(e, alternative, 0, f)
                                    },
                                    other => other,
                                },
                            },
                            other => other,
                        },
                    }
                } else if operator == OperatorKind::Or {
                    match (node_left(*left), node_right(*left)) {
                        (None, _) => Run::Failed(e, unexpected_token_text(*left)),
                        (_, None) => Run::Failed(e, unexpected_token_text(*left)),
                        (Some(sl), Some(sr)) => match s_replace_var(e, sl) {
                            Run::Done(_, rsl) => match s_replace_var(e, sr) {
                                Run::Done(_, rsr) => match (node_left(*right), node_right(*right)) {
                                    (None, _) => Run::Failed(e, unexpected_token_text(*right)),
                                    (_, None) => Run::Failed(e, unexpected_token_text(*right)),
                                    (Some(tl), Some(tr)) => match s_replace_var(e, tl) {
                                        Run::Done(_, rtl) => match s_replace_var(e, tr) {
                                            Run::Done(_, rtr) => if values_match(
                                                node_val(rsl),
                                                node_val(rsr),
                                            ) || values_match(node_val(rtl), node_val(rtr)) {
                                                s_eval_block_upsert(e, consequence, 0, f)
                                            } else {
                                                s_eval_block(e, alternative, 0, f)
                                            },
                                            other => other,
                                        },
                                        other => other,
                                    },
                                },
                                other => other,
                            },
                            other => other,
                        },
                    }
                } else if operator == OperatorKind::LessThan || operator == OperatorKind::GreaterThan {
                    // `<` and `>` check that both sides are integers and then run the
                    // consequence without comparing them.
                    match s_replace_var(e, *left) {
                        Run::Done(_, rl) => match node_val(rl) {
                            SValue::Int(_) => match node_val(*right) {
                                SValue::Int(_) => s_eval_block_upsert(e, consequence, 0, f),
                                _ => Run::Failed(e, "Invalid types"@),
                            },
                            _ => Run::Failed(e, "Invalid types"@),
                        },
                        other => other,
                    }
                } else {
                    Run::Done(e, SNode::EmptyNode)
                }
            },
            SNode::Atomic { value } => if value == SValue::Bool(true) {
                s_eval_block_upsert(e, consequence, 0, f)
            } else {
                Run::Done(e, SNode::EmptyNode)
            },
            _ => Run::Done(e, SNode::EmptyNode),
        }
    }
}

/// A `for` loop: the bounds are read, the variable counts from the start up to
/// the end, and is dropped afterwards.
pub open spec fn s_eval_for(
    e: Env,
    var: Seq<char>,
    from: SNode,
    to: SNode,
    body: Seq<SNode>,
    fuel: nat,
) -> Run<SNode>
    decreases fuel, 0nat,
{
    if fuel == 0 {
        Run::Exhausted
    } else {
        match s_replace_var(e, from) {
            Run::Done(_, start_node) => match s_replace_var(e, to) {
                Run::Done(_, end_node) => match s_fetch_integer(start_node) {
                    Err(m) => Run::Failed(e, m),
                    Ok(start) => match s_replace_var(e, end_node) {
                        Run::Done(_, replaced_end) => match s_fetch_integer(replaced_end) {
                            Err(m) => Run::Failed(e, m),
                            Ok(end) => {
                                let e1 = with_decls(e, e.decls.insert(var, atomic(SValue::Int(start))));
                                match s_eval_iterations(e1, var, body, start as int, end as int, (fuel - 1) as nat) {
                                    Run::Done(e2, _) => Run::Done(with_decls(e2, e2.decls.remove(var)), SNode::EmptyNode),
                                    other => other,
                                }
                            },
                        },
                        other => other,
                    },
                },
                other => other,
            },
            other => other,
        }
    }
}

/// The iterations of a `for` loop from the counter `i` on; a `break` sets the
/// counter to the end, and the counter is stepped after each pass.
pub open spec fn s_eval_iterations(
    e: Env,
    var: Seq<char>,
    body: Seq<SNode>,
    i: int,
    end: int,
    fuel: nat,
) -> Run<SNode>
    decreases fuel, end - i,
{
    if i >= end || fuel == 0 {
        if i >= end {
            Run::Done(e, SNode::EmptyNode)
        } else {
            Run::Exhausted
        }
    } else {
        match s_eval_pass(e, body, 0, (fuel - 1) as nat) {
            Run::Done(e2, stop) => {
                let next = if stop == atomic(SValue::Bool(true)) {
                    end + 1
                } else {
                    i + 1
                };
                if next > i32::MAX {
                    Run::Panic
                } else {
                    let e3 = with_decls(e2, e2.decls.insert(var, atomic(SValue::Int(next as i32))));
                    if next >= end {
                        Run::Done(e3, SNode::EmptyNode)
                    } else {
                        s_eval_iterations(e3, var, body, next, end, fuel)
                    }
                }
            },
            other => other,
        }
    }
}

/// One pass over the body of a `for` loop from its `j`-th node: errors other
/// than `Break` are passed over; the result tells whether a `break` ended the pass.
pub open spec fn s_eval_pass(e: Env, body: Seq<SNode>, j: int, fuel: nat) -> Run<SNode>
    decreases fuel, body.len() - j,
{
    if j >= body.len() || j < 0 {
        Run::Done(e, atomic(SValue::Bool(false)))
    } else {
        match s_eval_node(e, body[j], fuel) {
            Run::Done(e2, _) => s_eval_pass(e2, body, j + 1, fuel),
            Run::Failed(e2, m) => if m == "Break"@ {
                Run::Done(e2, atomic(SValue::Bool(true)))
            } else {
                s_eval_pass(e2, body, j + 1, fuel)
            },
            Run::Panic => Run::Panic,
            Run::Exhausted => Run::Exhausted,
        }
    }
}

/// Whether a run ends, with a value or an error.
pub open spec fn ends<T>(r: Run<T>) -> bool {
    r is Done || r is Failed
}

} // verus!

verus! {

/// Assigning an atomic value to a variable binds the variable to the value and
/// prints nothing; reading the variable afterwards gives the value back.
pub proof fn law_assignment_then_read(e: Env, name: Seq<char>, v: SValue, kind: Seq<char>, fuel: nat)
    requires
        fuel >= 2,
    ensures
        s_eval_node(
            e,
            SNode::AssignStmt {
                left: Box::new(SNode::Ident { name, kind: "var"@ }),
                right: Box::new(atomic(v)),
                kind,
            },
            fuel,
        ) == Run::Done(with_decls(e, e.decls.insert(name, atomic(v))), atomic(v)),
        s_replace_var(
            with_decls(e, e.decls.insert(name, atomic(v))),
            SNode::Ident { name, kind: "var"@ },
        ) == Run::Done(with_decls(e, e.decls.insert(name, atomic(v))), atomic(v)),
{
    let f = (fuel - 1) as nat;
    assert(s_eval_node(e, atomic(v), f) == Run::Done(e, atomic(v)));
}

} // verus!

verus! {

/// Whether each key of a map literal occurs once.
pub open spec fn keys_unique(s: Seq<(SNode, SNode)>) -> bool {
    forall|i: int, j: int| 0 <= i < j < s.len() ==> #[trigger] s[i].0 != #[trigger] s[j].0
}

proof fn lemma_pairs_insert_keys(s: Seq<(SNode, SNode)>, k: SNode, v: SNode, x: SNode)
    requires
        x != k,
        forall|j: int| 0 <= j < s.len() ==> #[trigger] s[j].0 != x,
    ensures
        forall|i: int| 0 <= i < pairs_insert(s, k, v).len() ==> #[trigger] pairs_insert(s, k, v)[i].0 != x,
    decreases s.len(),
{
    if s.len() > 0 && s[0].0 != k {
        let t = s.drop_first();
        assert forall|j: int| 0 <= j < t.len() implies #[trigger] t[j].0 != x by {
            assert(t[j] == s[j + 1]);
        }
        lemma_pairs_insert_keys(t, k, v, x);
        let r = pairs_insert(s, k, v);
        assert forall|i: int| 0 <= i < r.len() implies #[trigger] r[i].0 != x by {
            if i > 0 {
                assert(r[i] == pairs_insert(t, k, v)[i - 1]);
            }
        }
    }
}

/// The map literals the evaluator builds keep each key once: storing an entry
/// in a map literal whose keys are unique leaves them unique, and reading the
/// key back gives the value just stored.
pub proof fn law_pairs_insert_keeps_keys_unique(s: Seq<(SNode, SNode)>, k: SNode, v: SNode)
    requires
        keys_unique(s),
    ensures
        keys_unique(pairs_insert(s, k, v)),
        pairs_get(pairs_insert(s, k, v), k) == Some(v),
    decreases s.len(),
{
    if s.len() == 0 {
    } else if s[0].0 == k {
        let r = pairs_insert(s, k, v);
        assert forall|i: int, j: int| 0 <= i < j < r.len() implies #[trigger] r[i].0 != #[trigger] r[j].0 by {
            assert(r[i].0 == s[i].0 && r[j].0 == s[j].0);
        }
    } else {
        let t = s.drop_first();
        assert(keys_unique(t)) by {
            assert forall|i: int, j: int| 0 <= i < j < t.len() implies #[trigger] t[i].0 != #[trigger] t[j].0 by {
                assert(t[i] == s[i + 1] && t[j] == s[j + 1]);
            }
        }
        law_pairs_insert_keeps_keys_unique(t, k, v);
        assert forall|j: int| 0 <= j < t.len() implies #[trigger] t[j].0 != s[0].0 by {
            assert(t[j] == s[j + 1]);
        }
        lemma_pairs_insert_keys(t, k, v, s[0].0);
        let ti = pairs_insert(t, k, v);
        let r = pairs_insert(s, k, v);
        assert(r == seq![s[0]] + ti);
        assert forall|i: int, j: int| 0 <= i < j < r.len() implies #[trigger] r[i].0 != #[trigger] r[j].0 by {
            assert(r[j] == ti[j - 1]);
            if i > 0 {
                assert(r[i] == ti[i - 1]);
            }
        }
        assert(r.drop_first() =~= ti);
    }
}

} // verus!

verus! {

/// Whether an operator is one of the integer arithmetic operators.
pub open spec fn arithmetic_operator(op: OperatorKind) -> bool {
    op == OperatorKind::Add || op == OperatorKind::Subtract || op == OperatorKind::Multiply
        || op == OperatorKind::Divide || op == OperatorKind::Modulo
}

/// Two integer constants combine by `+ - * / %` into the integer result, with
/// the state unchanged: sum, difference and product as in arithmetic, and the
/// truncating quotient and remainder of `i32` (the remainder takes the sign of
/// the left operand). The result must fit and the divisor must not be zero.
pub proof fn law_integer_arithmetic(e: Env, op: OperatorKind, a: i32, b: i32)
    requires
        arithmetic_operator(op),
        int_arith(op, a, b) is Some,
    ensures
        s_eval_binary(e, atomic(SValue::Int(a)), op, atomic(SValue::Int(b))) == Run::Done(
            e,
            atomic(SValue::Int(int_arith(op, a, b)->0)),
        ),
        op == OperatorKind::Add ==> int_arith(op, a, b)->0 == a + b,
        op == OperatorKind::Subtract ==> int_arith(op, a, b)->0 == a - b,
        op == OperatorKind::Multiply ==> int_arith(op, a, b)->0 == a * b,
        op == OperatorKind::Divide ==> int_arith(op, a, b) == a.checked_div(b),
        op == OperatorKind::Modulo ==> int_arith(op, a, b) == a.checked_rem(b),
{
}

/// An operator the evaluator does not know fails with `Unknown operator`; an
/// arithmetic operator on two constants that are not both integers fails with
/// `Invalid types`; the state is unchanged either way.
pub proof fn law_binary_errors(e: Env, op: OperatorKind, l: SNode, r: SNode, lv: SValue, rv: SValue)
    ensures
        !evaluated_binary_operator(op) ==> s_eval_binary(e, l, op, r) == Run::<SNode>::Failed(
            e,
            "Unknown operator"@,
        ),
        arithmetic_operator(op) && !(lv is Int && rv is Int) ==> s_eval_binary(
            e,
            atomic(lv),
            op,
            atomic(rv),
        ) == Run::<SNode>::Failed(e, "Invalid types"@),
{
}

/// Binary numbers combine bitwise by `& | ^`, and shift by an integer amount
/// below 32 by `<< >>`, as `u32` operations, with the state unchanged.
pub proof fn law_binary_bits(e: Env, a: u32, b: u32, n: i32)
    requires
        0 <= n < 32,
    ensures
        s_eval_binary(e, atomic(SValue::Bin(a)), OperatorKind::BitwiseAnd, atomic(SValue::Bin(b)))
            == Run::Done(e, atomic(SValue::Bin(a & b))),
        s_eval_binary(e, atomic(SValue::Bin(a)), OperatorKind::BitwiseOr, atomic(SValue::Bin(b)))
            == Run::Done(e, atomic(SValue::Bin(a | b))),
        s_eval_binary(e, atomic(SValue::Bin(a)), OperatorKind::BitwiseXor, atomic(SValue::Bin(b)))
            == Run::Done(e, atomic(SValue::Bin(a ^ b))),
        s_eval_binary(e, atomic(SValue::Bin(a)), OperatorKind::ShiftLeft, atomic(SValue::Int(n)))
            == Run::Done(e, atomic(SValue::Bin(a << (n as u32)))),
        s_eval_binary(e, atomic(SValue::Bin(a)), OperatorKind::ShiftRight, atomic(SValue::Int(n)))
            == Run::Done(e, atomic(SValue::Bin(a >> (n as u32)))),
{
}

} // verus!

verus! {

/// Evaluating a node with more fuel than a run needed gives the same outcome:
/// fuel only decides whether a run gets to its end.
pub proof fn law_eval_node_more_fuel(e: Env, n: SNode, f1: nat, f2: nat)
    requires
        f1 <= f2,
    ensures
        !(s_eval_node(e, n, f1) is Exhausted) ==> s_eval_node(e, n, f2) == s_eval_node(e, n, f1),
    decreases f1, 0nat,
{
    if f1 > 0 {
        let g1 = (f1 - 1) as nat;
        let g2 = (f2 - 1) as nat;
        match n {
            SNode::AssignStmt { left, right, .. } => match *left {
                SNode::IndexExpression { index, .. } => match s_replace_var(e, *index) {
                    Run::Done(_, replaced) => law_eval_node_more_fuel(e, replaced, g1, g2),
                    _ => {},
                },
                _ => match *right {
                    SNode::Call { name, arguments, .. } => lemma_call_fuel(e, name, arguments, g1, g2),
                    _ => match s_replace_var(e, *right) {
                        Run::Done(_, replaced) => law_eval_node_more_fuel(e, replaced, g1, g2),
                        _ => {},
                    },
                },
            },
            SNode::Call { name, arguments, .. } => lemma_call_fuel(e, name, arguments, g1, g2),
            SNode::Conditional { condition, consequence, alternative } => {
                lemma_conditional_fuel(e, *condition, consequence, alternative, g1, g2)
            },
            SNode::ForLoop { variable, range, body } => {
                lemma_for_fuel(e, variable, *range.0, *range.1, body, g1, g2)
            },
            _ => {},
        }
    }
}

proof fn lemma_call_fuel(e: Env, name: Seq<char>, args: Seq<SNode>, f1: nat, f2: nat)
    requires
        f1 <= f2,
    ensures
        !(s_eval_call(e, name, args, f1) is Exhausted) ==> s_eval_call(e, name, args, f2)
            == s_eval_call(e, name, args, f1),
    decreases f1, 0nat,
{
    if f1 > 0 {
        let g1 = (f1 - 1) as nat;
        let g2 = (f2 - 1) as nat;
        if name == "print"@ {
            if args.len() > 0 {
                match node_left(args[0]) {
                    Some(temp) => match temp {
                        SNode::Call { name: n2, arguments: a2, .. } => lemma_call_fuel(e, n2, a2, g1, g2),
                        _ => {},
                    },
                    None => {},
                }
            }
        } else if name == "reduce"@ || name == "len"@ {
        } else if e.decls.contains_key(name) {
            lemma_function_fuel(e, e.decls[name], args, g1, g2);
        }
    }
}

proof fn lemma_function_fuel(e: Env, func: SNode, args: Seq<SNode>, f1: nat, f2: nat)
    requires
        f1 <= f2,
    ensures
        !(s_eval_function(e, func, args, f1) is Exhausted) ==> s_eval_function(e, func, args, f2)
            == s_eval_function(e, func, args, f1),
    decreases f1, 0nat,
{
    if f1 > 0 {
        match func {
            SNode::FunctionDecl { arguments: params, body, .. } => match s_bind_args(e, params, args, 0) {
                Run::Done(e1, _) => lemma_body_fuel(e1, body, 0, (f1 - 1) as nat, (f2 - 1) as nat),
                _ => {},
            },
            _ => {},
        }
    }
}

proof fn lemma_body_fuel(e: Env, body: Seq<SNode>, i: int, f1: nat, f2: nat)
    requires
        f1 <= f2,
    ensures
        !(s_eval_body(e, body, i, f1) is Exhausted) ==> s_eval_body(e, body, i, f2)
            == s_eval_body(e, body, i, f1),
    decreases f1, body.len() - i,
{
    if 0 <= i < body.len() {
        match body[i] {
            SNode::Return { .. } => {},
            _ => {
                law_eval_node_more_fuel(e, body[i], f1, f2);
                match s_eval_node(e, body[i], f1) {
                    Run::Done(e2, _) => lemma_body_fuel(e2, body, i + 1, f1, f2),
                    _ => {},
                }
            },
        }
    }
}

proof fn lemma_block_upsert_fuel(e: Env, nodes: Seq<SNode>, i: int, f1: nat, f2: nat)
    requires
        f1 <= f2,
    ensures
        !(s_eval_block_upsert(e, nodes, i, f1) is Exhausted) ==> s_eval_block_upsert(e, nodes, i, f2)
            == s_eval_block_upsert(e, nodes, i, f1),
    decreases f1, nodes.len() - i,
{
    if 0 <= i < nodes.len() {
        law_eval_node_more_fuel(e, nodes[i], f1, f2);
        match s_eval_node(e, nodes[i], f1) {
            Run::Done(e2, res) => match s_upsert(e2.decls, res) {
                Upd::Done(d) => lemma_block_upsert_fuel(with_decls(e2, d), nodes, i + 1, f1, f2),
                _ => {},
            },
            _ => {},
        }
    }
}

/// Evaluating nodes in turn with more fuel than the run needed gives the same
/// outcome.
pub proof fn lemma_block_fuel(e: Env, nodes: Seq<SNode>, i: int, f1: nat, f2: nat)
    requires
        f1 <= f2,
    ensures
        !(s_eval_block(e, nodes, i, f1) is Exhausted) ==> s_eval_block(e, nodes, i, f2)
            == s_eval_block(e, nodes, i, f1),
    decreases f1, nodes.len() - i,
{
    if 0 <= i < nodes.len() {
        law_eval_node_more_fuel(e, nodes[i], f1, f2);
        match s_eval_node(e, nodes[i], f1) {
            Run::Done(e2, _) => lemma_block_fuel(e2, nodes, i + 1, f1, f2),
            _ => {},
        }
    }
}

proof fn lemma_conditional_fuel(
    e: Env,
    cond: SNode,
    consequence: Seq<SNode>,
    alternative: Seq<SNode>,
    f1: nat,
    f2: nat,
)
    requires
        f1 <= f2,
    ensures
        !(s_eval_conditional(e, cond, consequence, alternative, f1) is Exhausted)
            ==> s_eval_conditional(e, cond, consequence, alternative, f2)
            == s_eval_conditional(e, cond, consequence, alternative, f1),
    decreases f1, 0nat,
{
    if f1 > 0 {
        lemma_block_upsert_fuel(e, consequence, 0, (f1 - 1) as nat, (f2 - 1) as nat);
        lemma_block_fuel(e, alternative, 0, (f1 - 1) as nat, (f2 - 1) as nat);
    }
}

proof fn lemma_for_fuel(
    e: Env,
    var: Seq<char>,
    from: SNode,
    to: SNode,
    body: Seq<SNode>,
    f1: nat,
    f2: nat,
)
    requires
        f1 <= f2,
    ensures
        !(s_eval_for(e, var, from, to, body, f1) is Exhausted) ==> s_eval_for(e, var, from, to, body, f2)
            == s_eval_for(e, var, from, to, body, f1),
    decreases f1, 0nat,
{
    if f1 > 0 {
        match s_replace_var(e, from) {
            Run::Done(_, start_node) => match s_replace_var(e, to) {
                Run::Done(_, end_node) => match s_fetch_integer(start_node) {
                    Ok(start) => match s_replace_var(e, end_node) {
                        Run::Done(_, replaced_end) => match s_fetch_integer(replaced_end) {
                            Ok(end) => {
                                let e1 = with_decls(e, e.decls.insert(var, atomic(SValue::Int(start))));
                                lemma_iterations_fuel(
                                    e1,
                                    var,
                                    body,
                                    start as int,
                                    end as int,
                                    (f1 - 1) as nat,
                                    (f2 - 1) as nat,
                                );
                            },
                            _ => {},
                        },
                        _ => {},
                    },
                    _ => {},
                },
                _ => {},
            },
            _ => {},
        }
    }
}

proof fn lemma_iterations_fuel(
    e: Env,
    var: Seq<char>,
    body: Seq<SNode>,
    i: int,
    end: int,
    f1: nat,
    f2: nat,
)
    requires
        f1 <= f2,
    ensures
        !(s_eval_iterations(e, var, body, i, end, f1) is Exhausted) ==> s_eval_iterations(
            e,
            var,
            body,
            i,
            end,
            f2,
        ) == s_eval_iterations(e, var, body, i, end, f1),
    decreases f1, end - i,
{
    if i < end && f1 > 0 {
        lemma_pass_fuel(e, body, 0, (f1 - 1) as nat, (f2 - 1) as nat);
        match s_eval_pass(e, body, 0, (f1 - 1) as nat) {
            Run::Done(e2, stop) => {
                let next = if stop == atomic(SValue::Bool(true)) {
                    end + 1
                } else {
                    i + 1
                };
                if next <= i32::MAX && next < end {
                    let e3 = with_decls(e2, e2.decls.insert(var, atomic(SValue::Int(next as i32))));
                    lemma_iterations_fuel(e3, var, body, next, end, f1, f2);
                }
            },
            _ => {},
        }
    }
}

proof fn lemma_pass_fuel(e: Env, body: Seq<SNode>, j: int, f1: nat, f2: nat)
    requires
        f1 <= f2,
    ensures
        !(s_eval_pass(e, body, j, f1) is Exhausted) ==> s_eval_pass(e, body, j, f2)
            == s_eval_pass(e, body, j, f1),
    decreases f1, body.len() - j,
{
    if 0 <= j < body.len() {
        law_eval_node_more_fuel(e, body[j], f1, f2);
        match s_eval_node(e, body[j], f1) {
            Run::Done(e2, _) => lemma_pass_fuel(e2, body, j + 1, f1, f2),
            Run::Failed(e2, m) => if m != "Break"@ {
                lemma_pass_fuel(e2, body, j + 1, f1, f2);
            },
            _ => {},
        }
    }
}

} // verus!

verus! {

/// A condition `l == r` runs the consequence when both sides have the same
/// value and the alternative when they differ: for two integer constants, two
/// string constants, or a variable holding an integer compared with an integer
/// constant.
pub proof fn law_equality_condition_picks_branch(
    e: Env,
    a: i32,
    b: i32,
    s: Seq<char>,
    t: Seq<char>,
    name: Seq<char>,
    kind: Seq<char>,
    consequence: Seq<SNode>,
    alternative: Seq<SNode>,
    fuel: nat,
)
    requires
        fuel > 0,
    ensures
        a == b ==> s_eval_conditional(
            e,
            SNode::BinaryExpression {
                left: Box::new(SNode::Atomic { value: SValue::Int(a) }),
                operator: OperatorKind::IsEqual,
                right: Box::new(SNode::Atomic { value: SValue::Int(b) }),
            },
            consequence,
            alternative,
            fuel,
        ) == s_eval_block_upsert(e, consequence, 0, (fuel - 1) as nat),
        a != b ==> s_eval_conditional(
            e,
            SNode::BinaryExpression {
                left: Box::new(SNode::Atomic { value: SValue::Int(a) }),
                operator: OperatorKind::IsEqual,
                right: Box::new(SNode::Atomic { value: SValue::Int(b) }),
            },
            consequence,
            alternative,
            fuel,
        ) == s_eval_block(e, alternative, 0, (fuel - 1) as nat),
        s == t ==> s_eval_conditional(
            e,
            SNode::BinaryExpression {
                left: Box::new(SNode::Atomic { value: SValue::Str(s) }),
                operator: OperatorKind::IsEqual,
                right: Box::new(SNode::Atomic { value: SValue::Str(t) }),
            },
            consequence,
            alternative,
            fuel,
        ) == s_eval_block_upsert(e, consequence, 0, (fuel - 1) as nat),
        s != t ==> s_eval_conditional(
            e,
            SNode::BinaryExpression {
                left: Box::new(SNode::Atomic { value: SValue::Str(s) }),
                operator: OperatorKind::IsEqual,
                right: Box::new(SNode::Atomic { value: SValue::Str(t) }),
            },
            consequence,
            alternative,
            fuel,
        ) == s_eval_block(e, alternative, 0, (fuel - 1) as nat),
        e.decls.contains_key(name) && e.decls[name] == (SNode::Atomic { value: SValue::Int(a) })
            ==> s_eval_conditional(
            e,
            SNode::BinaryExpression {
                left: Box::new(SNode::Ident { name, kind }),
                operator: OperatorKind::IsEqual,
                right: Box::new(SNode::Atomic { value: SValue::Int(b) }),
            },
            consequence,
            alternative,
            fuel,
        ) == (if a == b {
            s_eval_block_upsert(e, consequence, 0, (fuel - 1) as nat)
        } else {
            s_eval_block(e, alternative, 0, (fuel - 1) as nat)
        }),
{
}

} // verus!

verus! {

/// A condition `(a1 == b1) or (a2 == b2)` on integer constants runs the
/// consequence when either comparison holds and the alternative when neither does.
pub proof fn law_or_condition_picks_branch(
    e: Env,
    a1: i32,
    b1: i32,
    a2: i32,
    b2: i32,
    consequence: Seq<SNode>,
    alternative: Seq<SNode>,
    fuel: nat,
)
    requires
        fuel > 0,
    ensures
        s_eval_conditional(
            e,
            SNode::BinaryExpression {
                left: Box::new(
                    SNode::BinaryExpression {
                        left: Box::new(SNode::Atomic { value: SValue::Int(a1) }),
                        operator: OperatorKind::IsEqual,
                        right: Box::new(SNode::Atomic { value: SValue::Int(b1) }),
                    },
                ),
                operator: OperatorKind::Or,
                right: Box::new(
                    SNode::BinaryExpression {
                        left: Box::new(SNode::Atomic { value: SValue::Int(a2) }),
                        operator: OperatorKind::IsEqual,
                        right: Box::new(SNode::Atomic { value: SValue::Int(b2) }),
                    },
                ),
            },
            consequence,
            alternative,
            fuel,
        ) == (if a1 == b1 || a2 == b2 {
            s_eval_block_upsert(e, consequence, 0, (fuel - 1) as nat)
        } else {
            s_eval_block(e, alternative, 0, (fuel - 1) as nat)
        }),
{
}

} // verus!
