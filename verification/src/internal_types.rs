//! Reading the payload of a node of an expected kind.
use vstd::prelude::*;
use crate::node::{Node, SNode, debug_text, value_debug_text, node_debug_string, value_debug_string, view_nodes, view_pairs, lemma_view_nodes};
use crate::value::{Value, SValue};
use crate::text::{owned, push_all, i32_decimal, i32_to_string};

verus! {

/// `prefix` followed by `tail`.
pub fn text_with(prefix: &str, tail: &String) -> (res: String)
    ensures
        res@ == prefix@ + tail@,
{
    let mut res = owned(prefix);
    push_all(&mut res, tail.as_str());
    res
}

/// The elements of an array node.
pub open spec fn s_fetch_array(n: SNode) -> Result<Seq<SNode>, Seq<char>> {
    match n {
        SNode::Array { elements } => Ok(elements),
        _ => Err("expected array"@),
    }
}

/// The entries of a map node.
pub open spec fn s_fetch_hash_map(n: SNode) -> Result<Seq<(SNode, SNode)>, Seq<char>> {
    match n {
        SNode::HMap { values } => Ok(values),
        _ => Err("expected hash map, got "@ + debug_text(n)),
    }
}

/// The text a node names: an identifier, the name of a typed identifier, a
/// string value, or the text of the left part of an index or an assignment.
pub open spec fn s_fetch_string(n: SNode) -> Result<Seq<char>, Seq<char>>
    decreases n,
{
    match n {
        SNode::Identifier { value } => Ok(value),
        SNode::Ident { name, .. } => Ok(name),
        SNode::IndexExpression { left, .. } => s_fetch_string(*left),
        SNode::Atomic { value } => match value {
            SValue::Str(s) => Ok(s),
            _ => Err("expected string"@),
        },
        SNode::AssignStmt { left, .. } => s_fetch_string(*left),
        _ => Err("unexpected node "@ + debug_text(n)),
    }
}

/// The integer of an atomic node.
pub open spec fn s_fetch_integer(n: SNode) -> Result<i32, Seq<char>> {
    match n {
        SNode::Atomic { value } => match value {
            SValue::Int(i) => Ok(i),
            _ => Err("expected integer, got "@ + value_debug_text(value)),
        },
        _ => Err("expected integer, got "@ + debug_text(n)),
    }
}

/// The boolean of an atomic node.
pub open spec fn s_fetch_boolean(n: SNode) -> Result<bool, Seq<char>> {
    match n {
        SNode::Atomic { value } => match value {
            SValue::Bool(b) => Ok(b),
            _ => Err("expected boolean"@),
        },
        _ => Err("expected boolean"@),
    }
}

/// The binary number of an atomic node.
pub open spec fn s_fetch_binary(n: SNode) -> Result<u32, Seq<char>> {
    match n {
        SNode::Atomic { value } => match value {
            SValue::Bin(b) => Ok(b),
            _ => Err("expected binary operator but got "@ + value_debug_text(value)),
        },
        _ => Err("expected binary operator but got "@ + debug_text(n)),
    }
}

/// The elements of an array node.
pub fn fetch_array(node: Node) -> (res: Result<Vec<Node>, String>)
    ensures
        match s_fetch_array(node@) {
            Ok(els) => res matches Ok(v) && view_nodes(v@) == els,
            Err(m) => res matches Err(e) && e@ == m,
        },
{
    if let Node::Array { elements } = node {
        Ok(elements)
    } else {
        Err(owned("expected array"))
    }
}

/// The entries of a map node.
pub fn fetch_hash_map(node: Node) -> (res: Result<Vec<(Node, Node)>, String>)
    ensures
        match s_fetch_hash_map(node@) {
            Ok(vals) => res matches Ok(v) && view_pairs(v@) == vals,
            Err(m) => res matches Err(e) && e@ == m,
        },
{
    match node {
        Node::HMap { values } => Ok(values),
        _ => Err(text_with("expected hash map, got ", &node_debug_string(&node))),
    }
}

/// The text a node names.
pub fn fetch_string(node: Node) -> (res: Result<String, String>)
    ensures
        match s_fetch_string(node@) {
            Ok(s) => res matches Ok(t) && t@ == s,
            Err(m) => res matches Err(e) && e@ == m,
        },
    decreases node,
{
    match node {
        Node::Identifier { value } => Ok(value),
        Node::Ident { name, .. } => Ok(name),
        Node::IndexExpression { left, .. } => {
            let left = fetch_string(*left)?;
            Ok(left)
        },
        Node::Atomic { value, .. } => {
            if let Value::Str(s) = value {
                Ok(s)
            } else {
                Err(owned("expected string"))
            }
        },
        Node::AssignStmt { left, .. } => {
            let left = fetch_string(*left)?;
            Ok(left)
        },
        _ => Err(text_with("unexpected node ", &node_debug_string(&node))),
    }
}

/// The integer of an atomic node.
pub fn fetch_integer(node: Node) -> (res: Result<i32, String>)
    ensures
        match s_fetch_integer(node@) {
            Ok(i) => res == Ok::<i32, String>(i),
            Err(m) => res matches Err(e) && e@ == m,
        },
{
    match node {
        Node::Atomic { value } => {
            if let Value::Int(i) = value {
                Ok(i)
            } else {
                Err(text_with("expected integer, got ", &value_debug_string(&value)))
            }
        },
        _ => Err(text_with("expected integer, got ", &node_debug_string(&node))),
    }
}

/// The boolean of an atomic node.
pub fn fetch_boolean(node: Node) -> (res: Result<bool, String>)
    ensures
        match s_fetch_boolean(node@) {
            Ok(b) => res == Ok::<bool, String>(b),
            Err(m) => res matches Err(e) && e@ == m,
        },
{
    match node {
        Node::Atomic { value } => {
            if let Value::Bool(b) = value {
                Ok(b)
            } else {
                Err(owned("expected boolean"))
            }
        },
        _ => Err(owned("expected boolean")),
    }
}

/// The binary number of an atomic node.
pub fn fetch_binary(node: Node) -> (res: Result<u32, String>)
    ensures
        match s_fetch_binary(node@) {
            Ok(b) => res == Ok::<u32, String>(b),
            Err(m) => res matches Err(e) && e@ == m,
        },
{
    match node {
        Node::Atomic { value } => {
            if let Value::Bin(b) = value {
                Ok(b)
            } else {
                Err(text_with("expected binary operator but got ", &value_debug_string(&value)))
            }
        },
        _ => Err(text_with("expected binary operator but got ", &node_debug_string(&node))),
    }
}

} // verus!

verus! {

/// Whether a node is an integer constant.
pub open spec fn is_int_atom(n: SNode) -> bool {
    n matches SNode::Atomic { value: SValue::Int(_) }
}

/// Whether a node is an array of integer constants.
pub open spec fn int_row(n: SNode) -> bool {
    match n {
        SNode::Array { elements } => forall|k: int| 0 <= k < elements.len() ==> #[trigger] is_int_atom(elements[k]),
        _ => false,
    }
}

/// The elements of an array node.
pub open spec fn row_elements(n: SNode) -> Seq<SNode> {
    match n {
        SNode::Array { elements } => elements,
        _ => Seq::empty(),
    }
}

/// The printed line of a row of integers: each integer followed by `, `.
pub open spec fn row_text(els: Seq<SNode>) -> Seq<char>
    decreases els.len(),
{
    if els.len() == 0 {
        Seq::empty()
    } else {
        row_text(els.drop_last()) + match els.last() {
            SNode::Atomic { value: SValue::Int(i) } => i32_decimal(i),
            _ => Seq::empty(),
        } + ", "@
    }
}

/// The lines that print a matrix of integers, one per row. Every row must be
/// an array of integer constants; anything else is left out.
pub fn matrix_lines(matrix: &Vec<Node>) -> (res: Vec<String>)
    requires
        forall|r: int| 0 <= r < matrix@.len() ==> #[trigger] int_row(matrix@[r]@),
    ensures
        res@.len() == matrix@.len(),
        forall|r: int| 0 <= r < matrix@.len() ==> #[trigger] res@[r]@ == row_text(row_elements(matrix@[r]@)),
{
    let mut res: Vec<String> = Vec::new();
    let mut r: usize = 0;
    while r < matrix.len()
        invariant
            r <= matrix.len(),
            res@.len() == r,
            forall|r: int| 0 <= r < matrix@.len() ==> #[trigger] int_row(matrix@[r]@),
            forall|q: int| 0 <= q < r ==> #[trigger] res@[q]@ == row_text(row_elements(matrix@[q]@)),
        decreases matrix.len() - r,
    {
        assert(int_row(matrix@[r as int]@));
        match &matrix[r] {
            Node::Array { elements } => {
                let ghost es = view_nodes(elements@);
                proof {
                    lemma_view_nodes(elements@);
                }
                assert(row_elements(matrix@[r as int]@) == es);
                let mut line = String::new();
                let mut k: usize = 0;
                while k < elements.len()
                    invariant
                        k <= elements.len(),
                        es == view_nodes(elements@),
                        es.len() == elements.len(),
                        forall|j: int| 0 <= j < elements.len() ==> #[trigger] es[j] == elements@[j]@,
                        forall|j: int| 0 <= j < es.len() ==> #[trigger] is_int_atom(es[j]),
                        line@ == row_text(es.subrange(0, k as int)),
                    decreases elements.len() - k,
                {
                    assert(es[k as int] == elements@[k as int]@);
                    assert(is_int_atom(es[k as int]));
                    assert(es.subrange(0, k + 1).drop_last() =~= es.subrange(0, k as int));
                    match &elements[k] {
                        Node::Atomic { value: Value::Int(i) } => {
                            let t = i32_to_string(*i);
                            push_all(&mut line, t.as_str());
                            push_all(&mut line, ", ");
                        },
                        _ => vstd::pervasive::unreached(),
                    }
                    k += 1;
                }
                assert(es.subrange(0, k as int) =~= es);
                res.push(line);
            },
            _ => vstd::pervasive::unreached(),
        }
        r += 1;
    }
    res
}

} // verus!
