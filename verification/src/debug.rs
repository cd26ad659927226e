//! The text `{:?}` gives for nodes, values and the entries of a map literal,
//! as `derive(Debug)` lays it out, and the order in which the keys of a map
//! literal are listed.
use vstd::prelude::*;
use crate::node::{
    Node, SNode, OperatorKind, str_debug_text, str_debug_string, view_node, view_nodes, view_pairs,
    lemma_view_nodes, lemma_view_pairs,
};
use crate::value::{Value, SValue};
use crate::text::{i32_decimal, nat_digits, owned, push_all, i32_to_string, u32_to_decimal_string, chars_of};

verus! {

/// The name of an operator's variant.
pub open spec fn op_debug_text(op: OperatorKind) -> Seq<char> {
    match op {
        OperatorKind::ForAll => "ForAll"@,
        OperatorKind::Exists => "Exists"@,
        OperatorKind::Implies => "Implies"@,
        OperatorKind::Disjunction => "Disjunction"@,
        OperatorKind::Conjunction => "Conjunction"@,
        OperatorKind::Equality => "Equality"@,
        OperatorKind::ElementOf => "ElementOf"@,
        OperatorKind::Identifier => "Identifier"@,
        OperatorKind::Add => "Add"@,
        OperatorKind::Subtract => "Subtract"@,
        OperatorKind::Multiply => "Multiply"@,
        OperatorKind::Divide => "Divide"@,
        OperatorKind::Modulo => "Modulo"@,
        OperatorKind::BitwiseAnd => "BitwiseAnd"@,
        OperatorKind::BitwiseOr => "BitwiseOr"@,
        OperatorKind::BitwiseXor => "BitwiseXor"@,
        OperatorKind::ShiftLeft => "ShiftLeft"@,
        OperatorKind::ShiftRight => "ShiftRight"@,
        OperatorKind::Negation => "Negation"@,
        OperatorKind::IsEqual => "IsEqual"@,
        OperatorKind::Or => "Or"@,
        OperatorKind::And => "And"@,
        OperatorKind::LessThan => "LessThan"@,
        OperatorKind::GreaterThan => "GreaterThan"@,
        OperatorKind::Biconditional => "Biconditional"@,
    }
}

/// What `{:?}` prints for a value: the variant and its field.
pub open spec fn value_debug_text(v: SValue) -> Seq<char> {
    match v {
        SValue::Int(i) => "Int("@ + i32_decimal(i) + ")"@,
        SValue::Str(s) => "Str("@ + str_debug_text(s) + ")"@,
        SValue::Bool(b) => if b {
            "Bool(true)"@
        } else {
            "Bool(false)"@
        },
        SValue::Bin(b) => "Bin("@ + nat_digits(b as nat, 10) + ")"@,
        SValue::Null => "Null"@,
    }
}

/// The three-way comparison of two integers.
pub open spec fn int_order(a: int, b: int) -> int {
    if a < b {
        -1
    } else if a == b {
        0
    } else {
        1
    }
}

/// A comparison that falls back on a second one where the first finds equality.
pub open spec fn then_order(c: int, d: int) -> int {
    if c != 0 {
        c
    } else {
        d
    }
}

/// Strings compare character by character, a proper prefix first, from `i` on.
pub open spec fn chars_order_from(a: Seq<char>, b: Seq<char>, i: int) -> int
    decreases a.len() - i,
{
    if i >= a.len() || i >= b.len() || i < 0 {
        int_order(a.len() - i, b.len() - i)
    } else if a[i] < b[i] {
        -1
    } else if b[i] < a[i] {
        1
    } else {
        chars_order_from(a, b, i + 1)
    }
}

/// The order of strings.
pub open spec fn chars_order(a: Seq<char>, b: Seq<char>) -> int {
    chars_order_from(a, b, 0)
}

/// The position of an operator's variant.
pub open spec fn op_tag(op: OperatorKind) -> int {
    match op {
        OperatorKind::ForAll => 0,
        OperatorKind::Exists => 1,
        OperatorKind::Implies => 2,
        OperatorKind::Disjunction => 3,
        OperatorKind::Conjunction => 4,
        OperatorKind::Equality => 5,
        OperatorKind::ElementOf => 6,
        OperatorKind::Identifier => 7,
        OperatorKind::Add => 8,
        OperatorKind::Subtract => 9,
        OperatorKind::Multiply => 10,
        OperatorKind::Divide => 11,
        OperatorKind::Modulo => 12,
        OperatorKind::BitwiseAnd => 13,
        OperatorKind::BitwiseOr => 14,
        OperatorKind::BitwiseXor => 15,
        OperatorKind::ShiftLeft => 16,
        OperatorKind::ShiftRight => 17,
        OperatorKind::Negation => 18,
        OperatorKind::IsEqual => 19,
        OperatorKind::Or => 20,
        OperatorKind::And => 21,
        OperatorKind::LessThan => 22,
        OperatorKind::GreaterThan => 23,
        OperatorKind::Biconditional => 24,
    }
}

/// The position of a value's variant.
pub open spec fn value_tag(v: SValue) -> int {
    match v {
        SValue::Int(_) => 0,
        SValue::Str(_) => 1,
        SValue::Bool(_) => 2,
        SValue::Bin(_) => 3,
        SValue::Null => 4,
    }
}

/// The order of values: by variant, then by content.
pub open spec fn value_order(a: SValue, b: SValue) -> int {
    match (a, b) {
        (SValue::Int(x), SValue::Int(y)) => int_order(x as int, y as int),
        (SValue::Str(x), SValue::Str(y)) => chars_order(x, y),
        (SValue::Bool(x), SValue::Bool(y)) => int_order(if x { 1 } else { 0 }, if y { 1 } else { 0 }),
        (SValue::Bin(x), SValue::Bin(y)) => int_order(x as int, y as int),
        _ => int_order(value_tag(a), value_tag(b)),
    }
}

/// The position of a node's variant.
pub open spec fn node_tag(n: SNode) -> int {
    match n {
        SNode::BinaryExpression { .. } => 0,
        SNode::UnaryExpression { .. } => 1,
        SNode::Identifier { .. } => 2,
        SNode::AssignStmt { .. } => 3,
        SNode::Ident { .. } => 4,
        SNode::Atomic { .. } => 5,
        SNode::Call { .. } => 6,
        SNode::MethodCall { .. } => 7,
        SNode::MMExpression { .. } => 8,
        SNode::Type { .. } => 9,
        SNode::Conditional { .. } => 10,
        SNode::ForLoop { .. } => 11,
        SNode::Array { .. } => 12,
        SNode::EmptyNode => 13,
        SNode::Object { .. } => 14,
        SNode::Break => 15,
        SNode::IndexExpression { .. } => 16,
        SNode::FunctionDecl { .. } => 17,
        SNode::Return { .. } => 18,
        SNode::HMap { .. } => 19,
    }
}

/// The order of nodes, as `derive(Ord)` lays it out: by variant, then field by
/// field in the order of declaration; lists compare element by element, a
/// proper prefix first, and the entries of a map literal in the order held.
pub open spec fn node_order(a: SNode, b: SNode) -> int
    decreases a, 0int,
{
    if node_tag(a) != node_tag(b) {
        int_order(node_tag(a), node_tag(b))
    } else {
        match a {
            SNode::BinaryExpression { left: l1, operator: o1, right: r1 } => match b {
                SNode::BinaryExpression { left: l2, operator: o2, right: r2 } => then_order(
                    node_order(*l1, *l2),
                    then_order(int_order(op_tag(o1), op_tag(o2)), node_order(*r1, *r2)),
                ),
                _ => 0,
            },
            SNode::UnaryExpression { operator: o1, right: r1 } => match b {
                SNode::UnaryExpression { operator: o2, right: r2 } => then_order(
                    int_order(op_tag(o1), op_tag(o2)),
                    node_order(*r1, *r2),
                ),
                _ => 0,
            },
            SNode::Identifier { value: v1 } => match b {
                SNode::Identifier { value: v2 } => chars_order(v1, v2),
                _ => 0,
            },
            SNode::AssignStmt { left: l1, right: r1, kind: k1 } => match b {
                SNode::AssignStmt { left: l2, right: r2, kind: k2 } => then_order(
                    node_order(*l1, *l2),
                    then_order(node_order(*r1, *r2), chars_order(k1, k2)),
                ),
                _ => 0,
            },
            SNode::Ident { name: n1, kind: k1 } => match b {
                SNode::Ident { name: n2, kind: k2 } => then_order(chars_order(n1, n2), chars_order(k1, k2)),
                _ => 0,
            },
            SNode::Atomic { value: v1 } => match b {
                SNode::Atomic { value: v2 } => value_order(v1, v2),
                _ => 0,
            },
            SNode::Call { name: n1, arguments: a1, returns: r1 } => match b {
                SNode::Call { name: n2, arguments: a2, returns: r2 } => then_order(
                    chars_order(n1, n2),
                    then_order(nodes_order_from(a1, a2, 0), nodes_order_from(r1, r2, 0)),
                ),
                _ => 0,
            },
            SNode::MethodCall { name: n1, target: t1, arguments: a1, returns: r1 } => match b {
                SNode::MethodCall { name: n2, target: t2, arguments: a2, returns: r2 } => then_order(
                    chars_order(n1, n2),
                    then_order(
                        chars_order(t1, t2),
                        then_order(nodes_order_from(a1, a2, 0), nodes_order_from(r1, r2, 0)),
                    ),
                ),
                _ => 0,
            },
            SNode::MMExpression { expression: e1 } => match b {
                SNode::MMExpression { expression: e2 } => chars_order(e1, e2),
                _ => 0,
            },
            SNode::Type { name: n1 } => match b {
                SNode::Type { name: n2 } => chars_order(n1, n2),
                _ => 0,
            },
            SNode::Conditional { condition: c1, consequence: s1, alternative: t1 } => match b {
                SNode::Conditional { condition: c2, consequence: s2, alternative: t2 } => then_order(
                    node_order(*c1, *c2),
                    then_order(nodes_order_from(s1, s2, 0), nodes_order_from(t1, t2, 0)),
                ),
                _ => 0,
            },
            SNode::ForLoop { variable: v1, range: g1, body: b1 } => match b {
                SNode::ForLoop { variable: v2, range: g2, body: b2 } => then_order(
                    chars_order(v1, v2),
                    then_order(
                        node_order(*g1.0, *g2.0),
                        then_order(node_order(*g1.1, *g2.1), nodes_order_from(b1, b2, 0)),
                    ),
                ),
                _ => 0,
            },
            SNode::Array { elements: e1 } => match b {
                SNode::Array { elements: e2 } => nodes_order_from(e1, e2, 0),
                _ => 0,
            },
            SNode::Object { name: n1, kind: k1 } => match b {
                SNode::Object { name: n2, kind: k2 } => then_order(chars_order(n1, n2), chars_order(k1, k2)),
                _ => 0,
            },
            SNode::IndexExpression { left: l1, index: i1 } => match b {
                SNode::IndexExpression { left: l2, index: i2 } => then_order(
                    node_order(*l1, *l2),
                    node_order(*i1, *i2),
                ),
                _ => 0,
            },
            SNode::FunctionDecl { name: n1, arguments: a1, returns: r1, body: b1 } => match b {
                SNode::FunctionDecl { name: n2, arguments: a2, returns: r2, body: b2 } => then_order(
                    node_order(*n1, *n2),
                    then_order(
                        nodes_order_from(a1, a2, 0),
                        then_order(nodes_order_from(r1, r2, 0), nodes_order_from(b1, b2, 0)),
                    ),
                ),
                _ => 0,
            },
            SNode::Return { value: v1 } => match b {
                SNode::Return { value: v2 } => node_order(*v1, *v2),
                _ => 0,
            },
            SNode::HMap { values: p1 } => match b {
                SNode::HMap { values: p2 } => pairs_order_from(p1, p2, 0),
                _ => 0,
            },
            _ => 0,
        }
    }
}

/// Lists of nodes compare element by element from `i` on, a proper prefix first.
pub open spec fn nodes_order_from(a: Seq<SNode>, b: Seq<SNode>, i: int) -> int
    decreases a, a.len() - i,
{
    if i >= a.len() || i >= b.len() || i < 0 {
        int_order(a.len() - i, b.len() - i)
    } else {
        then_order(node_order(a[i], b[i]), nodes_order_from(a, b, i + 1))
    }
}

/// Lists of entries compare entry by entry from `i` on, key first.
pub open spec fn pairs_order_from(a: Seq<(SNode, SNode)>, b: Seq<(SNode, SNode)>, i: int) -> int
    decreases a, a.len() - i,
{
    if i >= a.len() || i >= b.len() || i < 0 {
        int_order(a.len() - i, b.len() - i)
    } else {
        then_order(
            node_order(a[i].0, b[i].0),
            then_order(node_order(a[i].1, b[i].1), pairs_order_from(a, b, i + 1)),
        )
    }
}

/// Entering the entry at position `i` into a list of positions ordered by
/// key, scanning from `j`: an equal key gives its place to the later entry, as
/// inserting into an ordered map keeps one entry per key with the last value.
pub open spec fn order_insert(s: Seq<(SNode, SNode)>, order: Seq<int>, i: int, j: int) -> Seq<int>
    decreases order.len() - j,
{
    if j >= order.len() || j < 0 {
        order.push(i)
    } else {
        let c = node_order(s[i].0, s[order[j]].0);
        if c == 0 {
            order.update(j, i)
        } else if c < 0 {
            order.insert(j, i)
        } else {
            order_insert(s, order, i, j + 1)
        }
    }
}

/// The positions of the entries an ordered map keeps of the first `n` entries,
/// in the order of their keys.
pub open spec fn map_order(s: Seq<(SNode, SNode)>, n: int) -> Seq<int>
    decreases n,
{
    if n <= 0 {
        Seq::empty()
    } else {
        order_insert(s, map_order(s, n - 1), n - 1, 0)
    }
}

/// What `{:?}` prints for a node, as `derive(Debug)` lays it out: the variant,
/// then `{ field: value, ... }`; strings quoted and escaped, lists in square
/// brackets, and the entries of a map literal in braces in the order of
/// their keys.
pub open spec fn debug_text(n: SNode) -> Seq<char>
    decreases n, 0int,
{
    match n {
        SNode::BinaryExpression { left, operator, right } => "BinaryExpression { left: "@
            + debug_text(*left) + ", operator: "@ + op_debug_text(operator) + ", right: "@
            + debug_text(*right) + " }"@,
        SNode::UnaryExpression { operator, right } => "UnaryExpression { operator: "@
            + op_debug_text(operator) + ", right: "@ + debug_text(*right) + " }"@,
        SNode::Identifier { value } => "Identifier { value: "@ + str_debug_text(value) + " }"@,
        SNode::AssignStmt { left, right, kind } => "AssignStmt { left: "@ + debug_text(*left)
            + ", right: "@ + debug_text(*right) + ", kind: "@ + str_debug_text(kind) + " }"@,
        SNode::Ident { name, kind } => "Ident { name: "@ + str_debug_text(name) + ", kind: "@
            + str_debug_text(kind) + " }"@,
        SNode::Atomic { value } => "Atomic { value: "@ + value_debug_text(value) + " }"@,
        SNode::Call { name, arguments, returns: rets } => "Call { name: "@ + str_debug_text(name)
            + ", arguments: ["@ + nodes_join(arguments) + "], returns: ["@ + nodes_join(rets)
            + "] }"@,
        SNode::MethodCall { name, target, arguments, returns: rets } => "MethodCall { name: "@
            + str_debug_text(name) + ", target: "@ + str_debug_text(target) + ", arguments: ["@
            + nodes_join(arguments) + "], returns: ["@ + nodes_join(rets) + "] }"@,
        SNode::MMExpression { expression } => "MMExpression { expression: "@ + str_debug_text(
            expression,
        ) + " }"@,
        SNode::Type { name } => "Type { name: "@ + str_debug_text(name) + " }"@,
        SNode::Conditional { condition, consequence, alternative } => "Conditional { condition: "@
            + debug_text(*condition) + ", consequence: ["@ + nodes_join(consequence)
            + "], alternative: ["@ + nodes_join(alternative) + "] }"@,
        SNode::ForLoop { variable, range, body } => "ForLoop { variable: "@ + str_debug_text(
            variable,
        ) + ", range: ("@ + debug_text(*range.0) + ", "@ + debug_text(*range.1) + "), body: ["@
            + nodes_join(body) + "] }"@,
        SNode::Array { elements } => "Array { elements: ["@ + nodes_join(elements) + "] }"@,
        SNode::EmptyNode => "EmptyNode"@,
        SNode::Object { name, kind } => "Object { name: "@ + str_debug_text(name) + ", kind: "@
            + str_debug_text(kind) + " }"@,
        SNode::Break => "Break"@,
        SNode::IndexExpression { left, index } => "IndexExpression { left: "@ + debug_text(*left)
            + ", index: "@ + debug_text(*index) + " }"@,
        SNode::FunctionDecl { name, arguments, returns: rets, body } => "FunctionDecl { name: "@
            + debug_text(*name) + ", arguments: ["@ + nodes_join(arguments) + "], returns: ["@
            + nodes_join(rets) + "], body: ["@ + nodes_join(body) + "] }"@,
        SNode::Return { value } => "Return { value: "@ + debug_text(*value) + " }"@,
        SNode::HMap { values } => "HMap { values: {"@ + pairs_join(
            values,
            map_order(values, values.len() as int),
        ) + "} }"@,
    }
}

/// The nodes of a list, printed and separated by `, `.
pub open spec fn nodes_join(s: Seq<SNode>) -> Seq<char>
    decreases s, 0int,
{
    if s.len() == 0 {
        Seq::empty()
    } else if s.len() == 1 {
        debug_text(s[0])
    } else {
        nodes_join(s.drop_last()) + ", "@ + debug_text(s.last())
    }
}

/// The entries of `s` at the positions in `order`, each printed as `key: value`
/// and separated by `, `.
pub open spec fn pairs_join(s: Seq<(SNode, SNode)>, order: Seq<int>) -> Seq<char>
    decreases s, order.len(),
{
    if order.len() == 0 {
        Seq::empty()
    } else {
        let j = order.last();
        let entry = if 0 <= j < s.len() {
            debug_text(s[j].0) + ": "@ + debug_text(s[j].1)
        } else {
            Seq::empty()
        };
        if order.len() == 1 {
            entry
        } else {
            pairs_join(s, order.drop_last()) + ", "@ + entry
        }
    }
}

/// What `{:?}` prints for a list of nodes.
pub open spec fn nodes_debug_text(s: Seq<SNode>) -> Seq<char> {
    "["@ + nodes_join(s) + "]"@
}

/// What `{:?}` prints for the ordered map that holds the entries of a map
/// literal: `{key: value, ...}`, one entry per key, in the order of the keys.
pub open spec fn pairs_debug_text(s: Seq<(SNode, SNode)>) -> Seq<char> {
    "{"@ + pairs_join(s, map_order(s, s.len() as int)) + "}"@
}

/// What `{:?}` prints for the left part of a node, or the error of taking it.
pub open spec fn left_result_debug_text(r: Result<SNode, Seq<char>>) -> Seq<char> {
    match r {
        Ok(n) => "Ok("@ + debug_text(n) + ")"@,
        Err(e) => "Err("@ + str_debug_text(e) + ")"@,
    }
}

} // verus!

verus! {

/// Appends a string.
fn cat(s: &mut String, t: &String)
    ensures
        final(s)@ == old(s)@ + t@,
{
    push_all(s, t.as_str());
}

/// The name of an operator's variant, as `{:?}` prints it.
pub(crate) fn op_debug_string(op: OperatorKind) -> (res: String)
    ensures
        res@ == op_debug_text(op),
{
    match op {
        OperatorKind::ForAll => owned("ForAll"),
        OperatorKind::Exists => owned("Exists"),
        OperatorKind::Implies => owned("Implies"),
        OperatorKind::Disjunction => owned("Disjunction"),
        OperatorKind::Conjunction => owned("Conjunction"),
        OperatorKind::Equality => owned("Equality"),
        OperatorKind::ElementOf => owned("ElementOf"),
        OperatorKind::Identifier => owned("Identifier"),
        OperatorKind::Add => owned("Add"),
        OperatorKind::Subtract => owned("Subtract"),
        OperatorKind::Multiply => owned("Multiply"),
        OperatorKind::Divide => owned("Divide"),
        OperatorKind::Modulo => owned("Modulo"),
        OperatorKind::BitwiseAnd => owned("BitwiseAnd"),
        OperatorKind::BitwiseOr => owned("BitwiseOr"),
        OperatorKind::BitwiseXor => owned("BitwiseXor"),
        OperatorKind::ShiftLeft => owned("ShiftLeft"),
        OperatorKind::ShiftRight => owned("ShiftRight"),
        OperatorKind::Negation => owned("Negation"),
        OperatorKind::IsEqual => owned("IsEqual"),
        OperatorKind::Or => owned("Or"),
        OperatorKind::And => owned("And"),
        OperatorKind::LessThan => owned("LessThan"),
        OperatorKind::GreaterThan => owned("GreaterThan"),
        OperatorKind::Biconditional => owned("Biconditional"),
    }
}

/// What `{:?}` prints for a value.
pub(crate) fn value_debug_string(v: &Value) -> (res: String)
    ensures
        res@ == value_debug_text(v@),
{
    match v {
        Value::Int(i) => {
            let mut s = owned("Int(");
            cat(&mut s, &i32_to_string(*i));
            push_all(&mut s, ")");
            s
        },
        Value::Str(t) => {
            let mut s = owned("Str(");
            cat(&mut s, &str_debug_string(t));
            push_all(&mut s, ")");
            s
        },
        Value::Bool(b) => if *b {
            owned("Bool(true)")
        } else {
            owned("Bool(false)")
        },
        Value::Bin(b) => {
            let mut s = owned("Bin(");
            cat(&mut s, &u32_to_decimal_string(*b));
            push_all(&mut s, ")");
            s
        },
        Value::Null => owned("Null"),
    }
}

/// What `{:?}` prints for a node (see [`debug_text`]).
pub(crate) fn node_debug_string(n: &Node) -> (res: String)
    ensures
        res@ == debug_text(n@),
    decreases n,
{
    match n {
        Node::BinaryExpression { left, operator, right } => {
            let mut s = owned("BinaryExpression { left: ");
            cat(&mut s, &node_debug_string(left));
            push_all(&mut s, ", operator: ");
            cat(&mut s, &op_debug_string(*operator));
            push_all(&mut s, ", right: ");
            cat(&mut s, &node_debug_string(right));
            push_all(&mut s, " }");
            s
        },
        Node::UnaryExpression { operator, right } => {
            let mut s = owned("UnaryExpression { operator: ");
            cat(&mut s, &op_debug_string(*operator));
            push_all(&mut s, ", right: ");
            cat(&mut s, &node_debug_string(right));
            push_all(&mut s, " }");
            s
        },
        Node::Identifier { value } => {
            let mut s = owned("Identifier { value: ");
            cat(&mut s, &str_debug_string(value));
            push_all(&mut s, " }");
            s
        },
        Node::AssignStmt { left, right, kind } => {
            let mut s = owned("AssignStmt { left: ");
            cat(&mut s, &node_debug_string(left));
            push_all(&mut s, ", right: ");
            cat(&mut s, &node_debug_string(right));
            push_all(&mut s, ", kind: ");
            cat(&mut s, &str_debug_string(kind));
            push_all(&mut s, " }");
            s
        },
        Node::Ident { name, kind } => {
            let mut s = owned("Ident { name: ");
            cat(&mut s, &str_debug_string(name));
            push_all(&mut s, ", kind: ");
            cat(&mut s, &str_debug_string(kind));
            push_all(&mut s, " }");
            s
        },
        Node::Atomic { value } => {
            let mut s = owned("Atomic { value: ");
            cat(&mut s, &value_debug_string(value));
            push_all(&mut s, " }");
            s
        },
        Node::Call { name, arguments, returns: rets } => {
            let mut s = owned("Call { name: ");
            cat(&mut s, &str_debug_string(name));
            push_all(&mut s, ", arguments: [");
            cat(&mut s, &nodes_join_string(arguments));
            push_all(&mut s, "], returns: [");
            cat(&mut s, &nodes_join_string(rets));
            push_all(&mut s, "] }");
            s
        },
        Node::MethodCall { name, target, arguments, returns: rets } => {
            let mut s = owned("MethodCall { name: ");
            cat(&mut s, &str_debug_string(name));
            push_all(&mut s, ", target: ");
            cat(&mut s, &str_debug_string(target));
            push_all(&mut s, ", arguments: [");
            cat(&mut s, &nodes_join_string(arguments));
            push_all(&mut s, "], returns: [");
            cat(&mut s, &nodes_join_string(rets));
            push_all(&mut s, "] }");
            s
        },
        Node::MMExpression { expression } => {
            let mut s = owned("MMExpression { expression: ");
            cat(&mut s, &str_debug_string(expression));
            push_all(&mut s, " }");
            s
        },
        Node::Type { name } => {
            let mut s = owned("Type { name: ");
            cat(&mut s, &str_debug_string(name));
            push_all(&mut s, " }");
            s
        },
        Node::Conditional { condition, consequence, alternative } => {
            let mut s = owned("Conditional { condition: ");
            cat(&mut s, &node_debug_string(condition));
            push_all(&mut s, ", consequence: [");
            cat(&mut s, &nodes_join_string(consequence));
            push_all(&mut s, "], alternative: [");
            cat(&mut s, &nodes_join_string(alternative));
            push_all(&mut s, "] }");
            s
        },
        Node::ForLoop { variable, range, body } => {
            let mut s = owned("ForLoop { variable: ");
            cat(&mut s, &str_debug_string(variable));
            push_all(&mut s, ", range: (");
            cat(&mut s, &node_debug_string(&range.0));
            push_all(&mut s, ", ");
            cat(&mut s, &node_debug_string(&range.1));
            push_all(&mut s, "), body: [");
            cat(&mut s, &nodes_join_string(body));
            push_all(&mut s, "] }");
            s
        },
        Node::Array { elements } => {
            let mut s = owned("Array { elements: [");
            cat(&mut s, &nodes_join_string(elements));
            push_all(&mut s, "] }");
            s
        },
        Node::EmptyNode => owned("EmptyNode"),
        Node::Object { name, kind } => {
            let mut s = owned("Object { name: ");
            cat(&mut s, &str_debug_string(name));
            push_all(&mut s, ", kind: ");
            cat(&mut s, &str_debug_string(kind));
            push_all(&mut s, " }");
            s
        },
        Node::Break {  } => owned("Break"),
        Node::IndexExpression { left, index } => {
            let mut s = owned("IndexExpression { left: ");
            cat(&mut s, &node_debug_string(left));
            push_all(&mut s, ", index: ");
            cat(&mut s, &node_debug_string(index));
            push_all(&mut s, " }");
            s
        },
        Node::FunctionDecl { name, arguments, returns: rets, body } => {
            let mut s = owned("FunctionDecl { name: ");
            cat(&mut s, &node_debug_string(name));
            push_all(&mut s, ", arguments: [");
            cat(&mut s, &nodes_join_string(arguments));
            push_all(&mut s, "], returns: [");
            cat(&mut s, &nodes_join_string(rets));
            push_all(&mut s, "], body: [");
            cat(&mut s, &nodes_join_string(body));
            push_all(&mut s, "] }");
            s
        },
        Node::Return { value } => {
            let mut s = owned("Return { value: ");
            cat(&mut s, &node_debug_string(value));
            push_all(&mut s, " }");
            s
        },
        Node::HMap { values } => {
            proof {
                lemma_view_pairs(values@);
            }
            let mut s = owned("HMap { values: {");
            cat(&mut s, &pairs_join_string(values));
            push_all(&mut s, "} }");
            s
        },
    }
}

/// The nodes of a list printed and separated by `, ` (see [`nodes_join`]).
pub(crate) fn nodes_join_string(v: &Vec<Node>) -> (res: String)
    ensures
        res@ == nodes_join(view_nodes(v@)),
    decreases v,
{
    let ghost vs = view_nodes(v@);
    proof {
        lemma_view_nodes(v@);
    }
    let mut s = String::new();
    let mut i: usize = 0;
    while i < v.len()
        invariant
            i <= v.len(),
            vs == view_nodes(v@),
            vs.len() == v@.len(),
            forall|k: int| 0 <= k < v@.len() ==> #[trigger] vs[k] == view_node(v@[k]),
            s@ == nodes_join(vs.take(i as int)),
        decreases v.len() - i,
    {
        proof {
            assert(decreases_to!(v => v@));
            assert(decreases_to!(v@ => v@[i as int]));
        }
        let t = node_debug_string(&v[i]);
        if i > 0 {
            push_all(&mut s, ", ");
        }
        cat(&mut s, &t);
        proof {
            let p = vs.take(i as int + 1);
            assert(p.drop_last() =~= vs.take(i as int));
            assert(p.last() == vs[i as int]);
            if i == 0 {
                assert(vs.take(0) =~= Seq::<SNode>::empty());
            }
        }
        i = i + 1;
    }
    assert(vs.take(i as int) =~= vs);
    s
}

/// The positions of the entries an ordered map keeps (see [`map_order`]).
fn map_order_positions(v: &Vec<(Node, Node)>) -> (res: Vec<usize>)
    ensures
        positions(res@) == map_order(view_pairs(v@), v@.len() as int),
        forall|k: int| 0 <= k < res@.len() ==> #[trigger] res@[k] < v@.len(),
{
    let ghost sv = view_pairs(v@);
    proof {
        lemma_view_pairs(v@);
    }
    let mut order: Vec<usize> = Vec::new();
    let mut i: usize = 0;
    assert(positions(order@) =~= map_order(sv, 0));
    while i < v.len()
        invariant
            i <= v.len(),
            sv == view_pairs(v@),
            sv.len() == v@.len(),
            forall|k: int|
                0 <= k < v@.len() ==> #[trigger] sv[k] == (view_node(v@[k].0), view_node(v@[k].1)),
            positions(order@) == map_order(sv, i as int),
            forall|k: int| 0 <= k < order@.len() ==> #[trigger] order@[k] < i,
        decreases v.len() - i,
    {
        let ghost before = positions(order@);
        let ghost goal = order_insert(sv, before, i as int, 0);
        let mut j: usize = 0;
        let mut found: u8 = 0;
        while j < order.len() && found == 0
            invariant
                i < v.len(),
                sv == view_pairs(v@),
                sv.len() == v@.len(),
                forall|k: int|
                    0 <= k < v@.len() ==> #[trigger] sv[k] == (view_node(v@[k].0), view_node(v@[k].1)),
                j <= order@.len(),
                positions(order@) == before,
                forall|k: int| 0 <= k < order@.len() ==> #[trigger] order@[k] < i,
                found == 0 ==> order_insert(sv, before, i as int, j as int) == goal,
                found == 1 ==> j < order@.len() && goal == before.update(j as int, i as int),
                found == 2 ==> j < order@.len() && goal == before.insert(j as int, i as int),
                found <= 2,
            decreases order@.len() - j + (if found == 0 { 1int } else { 0int }),
        {
            let c = compare_nodes(&v[i].0, &v[order[j]].0);
            proof {
                assert(sv[order@[j as int] as int] == (view_node(v@[order@[j as int] as int].0), view_node(v@[order@[j as int] as int].1)));
                assert(before[j as int] == order@[j as int] as int);
            }
            if c == 0 {
                found = 1;
            } else if c < 0 {
                found = 2;
            } else {
                j = j + 1;
            }
        }
        if found == 1 {
            order.set(j, i);
            assert(positions(order@) =~= before.update(j as int, i as int));
        } else if found == 2 {
            order.insert(j, i);
            assert(positions(order@) =~= before.insert(j as int, i as int));
        } else {
            order.push(i);
            assert(positions(order@) =~= before.push(i as int));
        }
        i = i + 1;
        assert(forall|k: int| 0 <= k < order@.len() ==> #[trigger] order@[k] < i);
    }
    order
}

/// Positions as integers.
pub open spec fn positions(s: Seq<usize>) -> Seq<int> {
    s.map_values(|x: usize| x as int)
}

/// The entries of a map literal, printed as an ordered map prints them
/// without its braces (see [`pairs_join`]).
pub(crate) fn pairs_join_string(v: &Vec<(Node, Node)>) -> (res: String)
    ensures
        res@ == pairs_join(view_pairs(v@), map_order(view_pairs(v@), v@.len() as int)),
    decreases v,
{
    let ghost sv = view_pairs(v@);
    proof {
        lemma_view_pairs(v@);
    }
    let order = map_order_positions(v);
    let ghost ov = positions(order@);
    let mut s = String::new();
    let mut m: usize = 0;
    while m < order.len()
        invariant
            m <= order@.len(),
            sv == view_pairs(v@),
            sv.len() == v@.len(),
            forall|k: int|
                0 <= k < v@.len() ==> #[trigger] sv[k] == (view_node(v@[k].0), view_node(v@[k].1)),
            ov == positions(order@),
            forall|k: int| 0 <= k < order@.len() ==> #[trigger] order@[k] < v@.len(),
            s@ == pairs_join(sv, ov.take(m as int)),
        decreases order@.len() - m,
    {
        let k = order[m];
        proof {
            assert(decreases_to!(v => v@));
            assert(decreases_to!(v@ => v@[k as int]));
            assert(decreases_to!(v@[k as int] => v@[k as int].0));
            assert(decreases_to!(v@[k as int] => v@[k as int].1));
        }
        let key = node_debug_string(&v[k].0);
        let val = node_debug_string(&v[k].1);
        if m > 0 {
            push_all(&mut s, ", ");
        }
        cat(&mut s, &key);
        push_all(&mut s, ": ");
        cat(&mut s, &val);
        proof {
            let p = ov.take(m as int + 1);
            assert(p.drop_last() =~= ov.take(m as int));
            assert(p.last() == k as int);
            assert(sv[k as int] == (view_node(v@[k as int].0), view_node(v@[k as int].1)));
            if m == 0 {
                assert(ov.take(0) =~= Seq::<int>::empty());
            }
        }
        m = m + 1;
    }
    assert(ov.take(m as int) =~= ov);
    s
}

/// What `{:?}` prints for a list of nodes.
pub(crate) fn nodes_debug_string(v: &Vec<Node>) -> (res: String)
    ensures
        res@ == nodes_debug_text(view_nodes(v@)),
{
    let mut s = owned("[");
    cat(&mut s, &nodes_join_string(v));
    push_all(&mut s, "]");
    s
}

/// What `{:?}` prints for the ordered map that holds the entries of a map
/// literal.
pub(crate) fn pairs_debug_string(v: &Vec<(Node, Node)>) -> (res: String)
    ensures
        res@ == pairs_debug_text(view_pairs(v@)),
{
    proof {
        lemma_view_pairs(v@);
    }
    let mut s = owned("{");
    cat(&mut s, &pairs_join_string(v));
    push_all(&mut s, "}");
    s
}

/// What `{:?}` prints for the left part of a node, or the error of taking it.
pub(crate) fn left_result_debug_string(r: &Result<Box<Node>, String>) -> (res: String)
    ensures
        res@ == left_result_debug_text(
            match r {
                Ok(b) => Ok(b@),
                Err(e) => Err(e@),
            },
        ),
{
    match r {
        Ok(b) => {
            let mut s = owned("Ok(");
            cat(&mut s, &node_debug_string(b));
            push_all(&mut s, ")");
            s
        },
        Err(e) => {
            let mut s = owned("Err(");
            cat(&mut s, &str_debug_string(e));
            push_all(&mut s, ")");
            s
        },
    }
}

} // verus!

verus! {

/// The order of strings (see [`chars_order`]).
fn compare_texts(a: &String, b: &String) -> (res: i8)
    ensures
        res as int == chars_order(a@, b@),
        -1 <= res <= 1,
{
    let x = chars_of(a.as_str());
    let y = chars_of(b.as_str());
    let mut i: usize = 0;
    while i < x.len() && i < y.len()
        invariant
            x@ == a@,
            y@ == b@,
            i <= x.len(),
            i <= y.len(),
            chars_order_from(a@, b@, i as int) == chars_order(a@, b@),
        decreases x.len() - i,
    {
        if x[i] < y[i] {
            return -1;
        } else if y[i] < x[i] {
            return 1;
        }
        i = i + 1;
    }
    if x.len() - i < y.len() - i {
        -1
    } else if x.len() == y.len() {
        0
    } else {
        1
    }
}

/// The three-way comparison of two integers, as a small number.
fn order_of(a: i64, b: i64) -> (res: i8)
    ensures
        res as int == int_order(a as int, b as int),
        -1 <= res <= 1,
{
    if a < b {
        -1
    } else if a == b {
        0
    } else {
        1
    }
}

/// The order of values (see [`value_order`]).
fn compare_values(a: &Value, b: &Value) -> (res: i8)
    ensures
        res as int == value_order(a@, b@),
        -1 <= res <= 1,
{
    match (a, b) {
        (Value::Int(x), Value::Int(y)) => order_of(*x as i64, *y as i64),
        (Value::Str(x), Value::Str(y)) => compare_texts(x, y),
        (Value::Bool(x), Value::Bool(y)) => order_of(if *x { 1 } else { 0 }, if *y { 1 } else { 0 }),
        (Value::Bin(x), Value::Bin(y)) => order_of(*x as i64, *y as i64),
        _ => order_of(value_tag_of(a) as i64, value_tag_of(b) as i64),
    }
}

/// The position of a value's variant.
fn value_tag_of(v: &Value) -> (res: u8)
    ensures
        res as int == value_tag(v@),
{
    match v {
        Value::Int(_) => 0,
        Value::Str(_) => 1,
        Value::Bool(_) => 2,
        Value::Bin(_) => 3,
        Value::Null => 4,
    }
}

/// The position of an operator's variant.
fn op_tag_of(op: OperatorKind) -> (res: u8)
    ensures
        res as int == op_tag(op),
{
    match op {
        OperatorKind::ForAll => 0,
        OperatorKind::Exists => 1,
        OperatorKind::Implies => 2,
        OperatorKind::Disjunction => 3,
        OperatorKind::Conjunction => 4,
        OperatorKind::Equality => 5,
        OperatorKind::ElementOf => 6,
        OperatorKind::Identifier => 7,
        OperatorKind::Add => 8,
        OperatorKind::Subtract => 9,
        OperatorKind::Multiply => 10,
        OperatorKind::Divide => 11,
        OperatorKind::Modulo => 12,
        OperatorKind::BitwiseAnd => 13,
        OperatorKind::BitwiseOr => 14,
        OperatorKind::BitwiseXor => 15,
        OperatorKind::ShiftLeft => 16,
        OperatorKind::ShiftRight => 17,
        OperatorKind::Negation => 18,
        OperatorKind::IsEqual => 19,
        OperatorKind::Or => 20,
        OperatorKind::And => 21,
        OperatorKind::LessThan => 22,
        OperatorKind::GreaterThan => 23,
        OperatorKind::Biconditional => 24,
    }
}

/// The position of a node's variant.
fn node_tag_of(n: &Node) -> (res: u8)
    ensures
        res as int == node_tag(n@),
{
    match n {
        Node::BinaryExpression { .. } => 0,
        Node::UnaryExpression { .. } => 1,
        Node::Identifier { .. } => 2,
        Node::AssignStmt { .. } => 3,
        Node::Ident { .. } => 4,
        Node::Atomic { .. } => 5,
        Node::Call { .. } => 6,
        Node::MethodCall { .. } => 7,
        Node::MMExpression { .. } => 8,
        Node::Type { .. } => 9,
        Node::Conditional { .. } => 10,
        Node::ForLoop { .. } => 11,
        Node::Array { .. } => 12,
        Node::EmptyNode => 13,
        Node::Object { .. } => 14,
        Node::Break {  } => 15,
        Node::IndexExpression { .. } => 16,
        Node::FunctionDecl { .. } => 17,
        Node::Return { .. } => 18,
        Node::HMap { .. } => 19,
    }
}

/// A comparison that falls back on a second one where the first finds equality.
fn then_order_of(c: i8, d: i8) -> (res: i8)
    requires
        -1 <= c <= 1,
        -1 <= d <= 1,
    ensures
        -1 <= res <= 1,
        res as int == then_order(c as int, d as int),
{
    if c != 0 {
        c
    } else {
        d
    }
}

/// The order of nodes (see [`node_order`]).
pub(crate) fn compare_nodes(a: &Node, b: &Node) -> (res: i8)
    ensures
        res as int == node_order(a@, b@),
        -1 <= res <= 1,
    decreases a,
{
    let ta = node_tag_of(a);
    let tb = node_tag_of(b);
    if ta != tb {
        return order_of(ta as i64, tb as i64);
    }
    match a {
        Node::BinaryExpression { left: l1, operator: o1, right: r1 } => match b {
            Node::BinaryExpression { left: l2, operator: o2, right: r2 } => {
                let c = compare_nodes(l1, l2);
                if c != 0 {
                    return c;
                }
                let d = order_of(op_tag_of(*o1) as i64, op_tag_of(*o2) as i64);
                if d != 0 {
                    return d;
                }
                compare_nodes(r1, r2)
            },
            _ => 0,
        },
        Node::UnaryExpression { operator: o1, right: r1 } => match b {
            Node::UnaryExpression { operator: o2, right: r2 } => {
                let d = order_of(op_tag_of(*o1) as i64, op_tag_of(*o2) as i64);
                if d != 0 {
                    return d;
                }
                compare_nodes(r1, r2)
            },
            _ => 0,
        },
        Node::Identifier { value: v1 } => match b {
            Node::Identifier { value: v2 } => compare_texts(v1, v2),
            _ => 0,
        },
        Node::AssignStmt { left: l1, right: r1, kind: k1 } => match b {
            Node::AssignStmt { left: l2, right: r2, kind: k2 } => {
                let c = compare_nodes(l1, l2);
                if c != 0 {
                    return c;
                }
                let d = compare_nodes(r1, r2);
                if d != 0 {
                    return d;
                }
                compare_texts(k1, k2)
            },
            _ => 0,
        },
        Node::Ident { name: n1, kind: k1 } => match b {
            Node::Ident { name: n2, kind: k2 } => then_order_of(compare_texts(n1, n2), compare_texts(k1, k2)),
            _ => 0,
        },
        Node::Atomic { value: v1 } => match b {
            Node::Atomic { value: v2 } => compare_values(v1, v2),
            _ => 0,
        },
        Node::Call { name: n1, arguments: a1, returns: r1 } => match b {
            Node::Call { name: n2, arguments: a2, returns: r2 } => {
                let c = compare_texts(n1, n2);
                if c != 0 {
                    return c;
                }
                let d = compare_node_lists(a1, a2);
                if d != 0 {
                    return d;
                }
                compare_node_lists(r1, r2)
            },
            _ => 0,
        },
        Node::MethodCall { name: n1, target: t1, arguments: a1, returns: r1 } => match b {
            Node::MethodCall { name: n2, target: t2, arguments: a2, returns: r2 } => {
                let c = compare_texts(n1, n2);
                if c != 0 {
                    return c;
                }
                let e = compare_texts(t1, t2);
                if e != 0 {
                    return e;
                }
                let d = compare_node_lists(a1, a2);
                if d != 0 {
                    return d;
                }
                compare_node_lists(r1, r2)
            },
            _ => 0,
        },
        Node::MMExpression { expression: e1 } => match b {
            Node::MMExpression { expression: e2 } => compare_texts(e1, e2),
            _ => 0,
        },
        Node::Type { name: n1 } => match b {
            Node::Type { name: n2 } => compare_texts(n1, n2),
            _ => 0,
        },
        Node::Conditional { condition: c1, consequence: s1, alternative: t1 } => match b {
            Node::Conditional { condition: c2, consequence: s2, alternative: t2 } => {
                let c = compare_nodes(c1, c2);
                if c != 0 {
                    return c;
                }
                let d = compare_node_lists(s1, s2);
                if d != 0 {
                    return d;
                }
                compare_node_lists(t1, t2)
            },
            _ => 0,
        },
        Node::ForLoop { variable: v1, range: g1, body: b1 } => match b {
            Node::ForLoop { variable: v2, range: g2, body: b2 } => {
                let c = compare_texts(v1, v2);
                if c != 0 {
                    return c;
                }
                let d = compare_nodes(&g1.0, &g2.0);
                if d != 0 {
                    return d;
                }
                let e = compare_nodes(&g1.1, &g2.1);
                if e != 0 {
                    return e;
                }
                compare_node_lists(b1, b2)
            },
            _ => 0,
        },
        Node::Array { elements: e1 } => match b {
            Node::Array { elements: e2 } => compare_node_lists(e1, e2),
            _ => 0,
        },
        Node::Object { name: n1, kind: k1 } => match b {
            Node::Object { name: n2, kind: k2 } => then_order_of(compare_texts(n1, n2), compare_texts(k1, k2)),
            _ => 0,
        },
        Node::IndexExpression { left: l1, index: i1 } => match b {
            Node::IndexExpression { left: l2, index: i2 } => {
                let c = compare_nodes(l1, l2);
                if c != 0 {
                    return c;
                }
                compare_nodes(i1, i2)
            },
            _ => 0,
        },
        Node::FunctionDecl { name: n1, arguments: a1, returns: r1, body: b1 } => match b {
            Node::FunctionDecl { name: n2, arguments: a2, returns: r2, body: b2 } => {
                let c = compare_nodes(n1, n2);
                if c != 0 {
                    return c;
                }
                let d = compare_node_lists(a1, a2);
                if d != 0 {
                    return d;
                }
                let e = compare_node_lists(r1, r2);
                if e != 0 {
                    return e;
                }
                compare_node_lists(b1, b2)
            },
            _ => 0,
        },
        Node::Return { value: v1 } => match b {
            Node::Return { value: v2 } => compare_nodes(v1, v2),
            _ => 0,
        },
        Node::HMap { values: p1 } => match b {
            Node::HMap { values: p2 } => compare_pair_lists(p1, p2),
            _ => 0,
        },
        _ => 0,
    }
}

/// The order of lists of nodes (see [`nodes_order_from`]).
fn compare_node_lists(a: &Vec<Node>, b: &Vec<Node>) -> (res: i8)
    ensures
        res as int == nodes_order_from(view_nodes(a@), view_nodes(b@), 0),
        -1 <= res <= 1,
    decreases a,
{
    let ghost va = view_nodes(a@);
    let ghost vb = view_nodes(b@);
    proof {
        lemma_view_nodes(a@);
        lemma_view_nodes(b@);
    }
    let mut i: usize = 0;
    while i < a.len() && i < b.len()
        invariant
            i <= a.len(),
            i <= b.len(),
            va == view_nodes(a@),
            vb == view_nodes(b@),
            va.len() == a@.len(),
            vb.len() == b@.len(),
            forall|k: int| 0 <= k < a@.len() ==> #[trigger] va[k] == view_node(a@[k]),
            forall|k: int| 0 <= k < b@.len() ==> #[trigger] vb[k] == view_node(b@[k]),
            nodes_order_from(va, vb, i as int) == nodes_order_from(va, vb, 0),
        decreases a.len() - i,
    {
        proof {
            assert(decreases_to!(a => a@));
            assert(decreases_to!(a@ => a@[i as int]));
        }
        let c = compare_nodes(&a[i], &b[i]);
        proof {
            assert(va[i as int] == view_node(a@[i as int]));
            assert(vb[i as int] == view_node(b@[i as int]));
        }
        if c != 0 {
            return c;
        }
        i = i + 1;
    }
    if a.len() - i < b.len() - i {
        -1
    } else if a.len() == b.len() {
        0
    } else {
        1
    }
}

/// The order of lists of entries (see [`pairs_order_from`]).
fn compare_pair_lists(a: &Vec<(Node, Node)>, b: &Vec<(Node, Node)>) -> (res: i8)
    ensures
        res as int == pairs_order_from(view_pairs(a@), view_pairs(b@), 0),
        -1 <= res <= 1,
    decreases a,
{
    let ghost va = view_pairs(a@);
    let ghost vb = view_pairs(b@);
    proof {
        lemma_view_pairs(a@);
        lemma_view_pairs(b@);
    }
    let mut i: usize = 0;
    while i < a.len() && i < b.len()
        invariant
            i <= a.len(),
            i <= b.len(),
            va == view_pairs(a@),
            vb == view_pairs(b@),
            va.len() == a@.len(),
            vb.len() == b@.len(),
            forall|k: int|
                0 <= k < a@.len() ==> #[trigger] va[k] == (view_node(a@[k].0), view_node(a@[k].1)),
            forall|k: int|
                0 <= k < b@.len() ==> #[trigger] vb[k] == (view_node(b@[k].0), view_node(b@[k].1)),
            pairs_order_from(va, vb, i as int) == pairs_order_from(va, vb, 0),
        decreases a.len() - i,
    {
        proof {
            assert(decreases_to!(a => a@));
            assert(decreases_to!(a@ => a@[i as int]));
            assert(decreases_to!(a@[i as int] => a@[i as int].0));
            assert(decreases_to!(a@[i as int] => a@[i as int].1));
        }
        let c = compare_nodes(&a[i].0, &b[i].0);
        proof {
            assert(va[i as int] == (view_node(a@[i as int].0), view_node(a@[i as int].1)));
            assert(vb[i as int] == (view_node(b@[i as int].0), view_node(b@[i as int].1)));
        }
        if c != 0 {
            return c;
        }
        let d = compare_nodes(&a[i].1, &b[i].1);
        if d != 0 {
            return d;
        }
        i = i + 1;
    }
    if a.len() - i < b.len() - i {
        -1
    } else if a.len() == b.len() {
        0
    } else {
        1
    }
}

} // verus!
