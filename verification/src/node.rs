//! Syntax trees shared by the parsers, the evaluator and the compiler.
use vstd::prelude::*;
use crate::value::{Value, SValue, display_value};
use crate::text::{owned, push_all};
pub use crate::debug::{
    debug_text, nodes_debug_text, pairs_debug_text, value_debug_text, left_result_debug_text,
};
pub(crate) use crate::debug::{
    node_debug_string, nodes_debug_string, pairs_debug_string, value_debug_string,
    left_result_debug_string,
};

verus! {

/// Operators that can appear in expressions.
#[derive(Debug, Clone, Copy, PartialEq, Eq, Structural, PartialOrd, Ord)]
pub enum OperatorKind {
    ForAll,
    Exists,
    Implies,
    Disjunction,
    Conjunction,
    Equality,
    ElementOf,
    Identifier,
    Add,
    Subtract,
    Multiply,
    Divide,
    Modulo,
    BitwiseAnd,
    BitwiseOr,
    BitwiseXor,
    ShiftLeft,
    ShiftRight,
    Negation,
    IsEqual,
    Or,
    And,
    LessThan,
    GreaterThan,
    Biconditional,
}

/// A node of a syntax tree. Nodes compare as their derived order says;
/// `debug::node_order` states that order, by which the keys of a map literal
/// are listed when it is printed.
#[derive(Debug, PartialEq, Eq, PartialOrd, Ord)]
pub enum Node {
    BinaryExpression { left: Box<Node>, operator: OperatorKind, right: Box<Node> },
    UnaryExpression { operator: OperatorKind, right: Box<Node> },
    Identifier { value: String },
    AssignStmt { left: Box<Node>, right: Box<Node>, kind: String },
    Ident { name: String, kind: String },
    Atomic { value: Value },
    Call { name: String, arguments: Vec<Node>, returns: Vec<Node> },
    MethodCall { name: String, target: String, arguments: Vec<Node>, returns: Vec<Node> },
    MMExpression { expression: String },
    Type { name: String },
    Conditional { condition: Box<Node>, consequence: Vec<Node>, alternative: Vec<Node> },
    ForLoop { variable: String, range: (Box<Node>, Box<Node>), body: Vec<Node> },
    Array { elements: Vec<Node> },
    EmptyNode,
    Object { name: String, kind: String },
    Break {},
    IndexExpression { left: Box<Node>, index: Box<Node> },
    FunctionDecl { name: Box<Node>, arguments: Vec<Node>, returns: Vec<Node>, body: Vec<Node> },
    Return { value: Box<Node> },
    /// A map literal, held as its entries; the builders keep each key once
    /// (see `semantics::keys_unique`).
    HMap { values: Vec<(Node, Node)> },
}

/// The mathematical model of a [`Node`]: strings become character sequences
/// and vectors become sequences.
pub enum SNode {
    BinaryExpression { left: Box<SNode>, operator: OperatorKind, right: Box<SNode> },
    UnaryExpression { operator: OperatorKind, right: Box<SNode> },
    Identifier { value: Seq<char> },
    AssignStmt { left: Box<SNode>, right: Box<SNode>, kind: Seq<char> },
    Ident { name: Seq<char>, kind: Seq<char> },
    Atomic { value: SValue },
    Call { name: Seq<char>, arguments: Seq<SNode>, returns: Seq<SNode> },
    MethodCall { name: Seq<char>, target: Seq<char>, arguments: Seq<SNode>, returns: Seq<SNode> },
    MMExpression { expression: Seq<char> },
    Type { name: Seq<char> },
    Conditional { condition: Box<SNode>, consequence: Seq<SNode>, alternative: Seq<SNode> },
    ForLoop { variable: Seq<char>, range: (Box<SNode>, Box<SNode>), body: Seq<SNode> },
    Array { elements: Seq<SNode> },
    EmptyNode,
    Object { name: Seq<char>, kind: Seq<char> },
    Break,
    IndexExpression { left: Box<SNode>, index: Box<SNode> },
    FunctionDecl { name: Box<SNode>, arguments: Seq<SNode>, returns: Seq<SNode>, body: Seq<SNode> },
    Return { value: Box<SNode> },
    HMap { values: Seq<(SNode, SNode)> },
}

/// Model of a node.
pub open spec fn view_node(n: Node) -> SNode
    decreases n,
{
    match n {
        Node::BinaryExpression { left, operator, right } => SNode::BinaryExpression {
            left: Box::new(view_node(*left)),
            operator,
            right: Box::new(view_node(*right)),
        },
        Node::UnaryExpression { operator, right } => SNode::UnaryExpression {
            operator,
            right: Box::new(view_node(*right)),
        },
        Node::Identifier { value } => SNode::Identifier { value: value@ },
        Node::AssignStmt { left, right, kind } => SNode::AssignStmt {
            left: Box::new(view_node(*left)),
            right: Box::new(view_node(*right)),
            kind: kind@,
        },
        Node::Ident { name, kind } => SNode::Ident { name: name@, kind: kind@ },
        Node::Atomic { value } => SNode::Atomic { value: value@ },
        Node::Call { name, arguments, returns: rets } => SNode::Call {
            name: name@,
            arguments: view_nodes(arguments@),
            returns: view_nodes(rets@),
        },
        Node::MethodCall { name, target, arguments, returns: rets } => SNode::MethodCall {
            name: name@,
            target: target@,
            arguments: view_nodes(arguments@),
            returns: view_nodes(rets@),
        },
        Node::MMExpression { expression } => SNode::MMExpression { expression: expression@ },
        Node::Type { name } => SNode::Type { name: name@ },
        Node::Conditional { condition, consequence, alternative } => SNode::Conditional {
            condition: Box::new(view_node(*condition)),
            consequence: view_nodes(consequence@),
            alternative: view_nodes(alternative@),
        },
        Node::ForLoop { variable, range, body } => SNode::ForLoop {
            variable: variable@,
            range: (Box::new(view_node(*range.0)), Box::new(view_node(*range.1))),
            body: view_nodes(body@),
        },
        Node::Array { elements } => SNode::Array { elements: view_nodes(elements@) },
        Node::EmptyNode => SNode::EmptyNode,
        Node::Object { name, kind } => SNode::Object { name: name@, kind: kind@ },
        Node::Break {  } => SNode::Break,
        Node::IndexExpression { left, index } => SNode::IndexExpression {
            left: Box::new(view_node(*left)),
            index: Box::new(view_node(*index)),
        },
        Node::FunctionDecl { name, arguments, returns: rets, body } => SNode::FunctionDecl {
            name: Box::new(view_node(*name)),
            arguments: view_nodes(arguments@),
            returns: view_nodes(rets@),
            body: view_nodes(body@),
        },
        Node::Return { value } => SNode::Return { value: Box::new(view_node(*value)) },
        Node::HMap { values } => SNode::HMap { values: view_pairs(values@) },
    }
}

/// Model of a sequence of nodes, element by element.
pub open spec fn view_nodes(s: Seq<Node>) -> Seq<SNode>
    decreases s,
{
    if s.len() == 0 {
        Seq::empty()
    } else {
        view_nodes(s.drop_last()).push(view_node(s.last()))
    }
}

/// Model of a sequence of key/value pairs.
pub open spec fn view_pairs(s: Seq<(Node, Node)>) -> Seq<(SNode, SNode)>
    decreases s,
{
    if s.len() == 0 {
        Seq::empty()
    } else {
        view_pairs(s.drop_last()).push((view_node(s.last().0), view_node(s.last().1)))
    }
}

impl View for Node {
    type V = SNode;

    open spec fn view(&self) -> SNode {
        view_node(*self)
    }
}

/// The model of a sequence of nodes has its length and its elements.
pub proof fn lemma_view_nodes(s: Seq<Node>)
    ensures
        view_nodes(s).len() == s.len(),
        forall|i: int| 0 <= i < s.len() ==> #[trigger] view_nodes(s)[i] == view_node(s[i]),
    decreases s.len(),
{
    if s.len() > 0 {
        lemma_view_nodes(s.drop_last());
    }
}

/// The model of a sequence of pairs has its length and its elements.
pub proof fn lemma_view_pairs(s: Seq<(Node, Node)>)
    ensures
        view_pairs(s).len() == s.len(),
        forall|i: int|
            0 <= i < s.len() ==> #[trigger] view_pairs(s)[i] == (view_node(s[i].0), view_node(
                s[i].1,
            )),
    decreases s.len(),
{
    if s.len() > 0 {
        lemma_view_pairs(s.drop_last());
    }
}

/// Pushing a node pushes its model.
pub proof fn lemma_view_nodes_push(s: Seq<Node>, n: Node)
    ensures
        view_nodes(s.push(n)) == view_nodes(s).push(view_node(n)),
{
    assert(s.push(n).drop_last() =~= s);
}

/// Nodes with equal elements have equal models.
pub proof fn lemma_view_nodes_ext(s: Seq<Node>, t: Seq<Node>)
    requires
        s.len() == t.len(),
        forall|i: int| 0 <= i < s.len() ==> view_node(#[trigger] s[i]) == view_node(t[i]),
    ensures
        view_nodes(s) == view_nodes(t),
{
    lemma_view_nodes(s);
    lemma_view_nodes(t);
    assert(view_nodes(s) =~= view_nodes(t));
}

/// A deep copy of a list of nodes.
pub fn clone_nodes(v: &Vec<Node>) -> (res: Vec<Node>)
    ensures
        view_nodes(res@) == view_nodes(v@),
    decreases v,
{
    let mut res: Vec<Node> = Vec::new();
    let mut i: usize = 0;
    while i < v.len()
        invariant
            i <= v.len(),
            res@.len() == i,
            forall|j: int| 0 <= j < i ==> view_node(#[trigger] res@[j]) == view_node(v@[j]),
        decreases v.len() - i,
    {
        proof {
            assert(decreases_to!(v => v@));
            assert(decreases_to!(v@ => v@[i as int]));
        }
        let c = clone_node(&v[i]);
        res.push(c);
        i = i + 1;
    }
    proof {
        lemma_view_nodes_ext(res@, v@);
    }
    res
}

/// A deep copy of the entries of a map literal.
pub fn clone_pairs(v: &Vec<(Node, Node)>) -> (res: Vec<(Node, Node)>)
    ensures
        view_pairs(res@) == view_pairs(v@),
    decreases v,
{
    let mut res: Vec<(Node, Node)> = Vec::new();
    let mut i: usize = 0;
    while i < v.len()
        invariant
            i <= v.len(),
            res@.len() == i,
            forall|j: int|
                0 <= j < i ==> view_node(#[trigger] res@[j].0) == view_node(v@[j].0) && view_node(
                    res@[j].1,
                ) == view_node(v@[j].1),
        decreases v.len() - i,
    {
        proof {
            assert(decreases_to!(v => v@));
            assert(decreases_to!(v@ => v@[i as int]));
        }
        let k = clone_node(&v[i].0);
        let x = clone_node(&v[i].1);
        res.push((k, x));
        i = i + 1;
    }
    proof {
        lemma_view_pairs(res@);
        lemma_view_pairs(v@);
        assert(view_pairs(res@) =~= view_pairs(v@));
    }
    res
}

/// Whether two lists of nodes are equal, element by element.
pub fn nodes_eq(a: &Vec<Node>, b: &Vec<Node>) -> (res: bool)
    ensures
        res == (view_nodes(a@) == view_nodes(b@)),
    decreases a,
{
    proof {
        lemma_view_nodes(a@);
        lemma_view_nodes(b@);
    }
    if a.len() != b.len() {
        return false;
    }
    let mut i: usize = 0;
    while i < a.len()
        invariant
            i <= a.len(),
            a.len() == b.len(),
            view_nodes(a@).len() == a@.len(),
            view_nodes(b@).len() == b@.len(),
            forall|j: int| 0 <= j < a@.len() ==> #[trigger] view_nodes(a@)[j] == view_node(a@[j]),
            forall|j: int| 0 <= j < b@.len() ==> #[trigger] view_nodes(b@)[j] == view_node(b@[j]),
            forall|j: int| 0 <= j < i ==> view_node(#[trigger] a@[j]) == view_node(b@[j]),
        decreases a.len() - i,
    {
        proof {
            assert(decreases_to!(a => a@));
            assert(decreases_to!(a@ => a@[i as int]));
        }
        if !node_eq(&a[i], &b[i]) {
            assert(view_nodes(a@)[i as int] != view_nodes(b@)[i as int]);
            return false;
        }
        i = i + 1;
    }
    assert(view_nodes(a@) =~= view_nodes(b@));
    true
}

/// Whether two lists of map entries are equal, entry by entry.
pub fn pairs_eq(a: &Vec<(Node, Node)>, b: &Vec<(Node, Node)>) -> (res: bool)
    ensures
        res == (view_pairs(a@) == view_pairs(b@)),
    decreases a,
{
    proof {
        lemma_view_pairs(a@);
        lemma_view_pairs(b@);
    }
    if a.len() != b.len() {
        return false;
    }
    let mut i: usize = 0;
    while i < a.len()
        invariant
            i <= a.len(),
            a.len() == b.len(),
            view_pairs(a@).len() == a@.len(),
            view_pairs(b@).len() == b@.len(),
            forall|j: int|
                0 <= j < a@.len() ==> #[trigger] view_pairs(a@)[j] == (view_node(a@[j].0), view_node(a@[j].1)),
            forall|j: int|
                0 <= j < b@.len() ==> #[trigger] view_pairs(b@)[j] == (view_node(b@[j].0), view_node(b@[j].1)),
            forall|j: int|
                0 <= j < i ==> view_node(#[trigger] a@[j].0) == view_node(b@[j].0) && view_node(
                    a@[j].1,
                ) == view_node(b@[j].1),
        decreases a.len() - i,
    {
        proof {
            assert(decreases_to!(a => a@));
            assert(decreases_to!(a@ => a@[i as int]));
        }
        if !node_eq(&a[i].0, &b[i].0) || !node_eq(&a[i].1, &b[i].1) {
            assert(view_pairs(a@)[i as int] != view_pairs(b@)[i as int]);
            return false;
        }
        i = i + 1;
    }
    assert(view_pairs(a@) =~= view_pairs(b@));
    true
}

/// Whether two nodes are equal: the same kind with equal parts.
pub fn node_eq(a: &Node, b: &Node) -> (res: bool)
    ensures
        res == (a@ == b@),
    decreases a,
{
    match (a, b) {
        (
            Node::BinaryExpression { left: l1, operator: o1, right: r1 },
            Node::BinaryExpression { left: l2, operator: o2, right: r2 },
        ) => *o1 == *o2 && node_eq(l1, l2) && node_eq(r1, r2),
        (
            Node::UnaryExpression { operator: o1, right: r1 },
            Node::UnaryExpression { operator: o2, right: r2 },
        ) => *o1 == *o2 && node_eq(r1, r2),
        (Node::Identifier { value: v1 }, Node::Identifier { value: v2 }) => *v1 == *v2,
        (
            Node::AssignStmt { left: l1, right: r1, kind: k1 },
            Node::AssignStmt { left: l2, right: r2, kind: k2 },
        ) => *k1 == *k2 && node_eq(l1, l2) && node_eq(r1, r2),
        (Node::Ident { name: n1, kind: k1 }, Node::Ident { name: n2, kind: k2 }) => *n1 == *n2
            && *k1 == *k2,
        (Node::Atomic { value: v1 }, Node::Atomic { value: v2 }) => *v1 == *v2,
        (
            Node::Call { name: n1, arguments: a1, returns: r1 },
            Node::Call { name: n2, arguments: a2, returns: r2 },
        ) => *n1 == *n2 && nodes_eq(a1, a2) && nodes_eq(r1, r2),
        (
            Node::MethodCall { name: n1, target: t1, arguments: a1, returns: r1 },
            Node::MethodCall { name: n2, target: t2, arguments: a2, returns: r2 },
        ) => *n1 == *n2 && *t1 == *t2 && nodes_eq(a1, a2) && nodes_eq(r1, r2),
        (Node::MMExpression { expression: e1 }, Node::MMExpression { expression: e2 }) => *e1
            == *e2,
        (Node::Type { name: n1 }, Node::Type { name: n2 }) => *n1 == *n2,
        (
            Node::Conditional { condition: c1, consequence: q1, alternative: a1 },
            Node::Conditional { condition: c2, consequence: q2, alternative: a2 },
        ) => node_eq(c1, c2) && nodes_eq(q1, q2) && nodes_eq(a1, a2),
        (
            Node::ForLoop { variable: v1, range: g1, body: b1 },
            Node::ForLoop { variable: v2, range: g2, body: b2 },
        ) => *v1 == *v2 && node_eq(&g1.0, &g2.0) && node_eq(&g1.1, &g2.1) && nodes_eq(b1, b2),
        (Node::Array { elements: e1 }, Node::Array { elements: e2 }) => nodes_eq(e1, e2),
        (Node::EmptyNode, Node::EmptyNode) => true,
        (Node::Object { name: n1, kind: k1 }, Node::Object { name: n2, kind: k2 }) => *n1 == *n2
            && *k1 == *k2,
        (Node::Break {  }, Node::Break {  }) => true,
        (
            Node::IndexExpression { left: l1, index: i1 },
            Node::IndexExpression { left: l2, index: i2 },
        ) => node_eq(l1, l2) && node_eq(i1, i2),
        (
            Node::FunctionDecl { name: n1, arguments: a1, returns: r1, body: b1 },
            Node::FunctionDecl { name: n2, arguments: a2, returns: r2, body: b2 },
        ) => node_eq(n1, n2) && nodes_eq(a1, a2) && nodes_eq(r1, r2) && nodes_eq(b1, b2),
        (Node::Return { value: v1 }, Node::Return { value: v2 }) => node_eq(v1, v2),
        (Node::HMap { values: v1 }, Node::HMap { values: v2 }) => pairs_eq(v1, v2),
        _ => false,
    }
}

/// A deep copy of a node.
pub fn clone_node(n: &Node) -> (res: Node)
    ensures
        res@ == n@,
    decreases n,
{
    match n {
        Node::BinaryExpression { left, operator, right } => Node::BinaryExpression {
            left: Box::new(clone_node(left)),
            operator: *operator,
            right: Box::new(clone_node(right)),
        },
        Node::UnaryExpression { operator, right } => Node::UnaryExpression {
            operator: *operator,
            right: Box::new(clone_node(right)),
        },
        Node::Identifier { value } => Node::Identifier { value: value.clone() },
        Node::AssignStmt { left, right, kind } => Node::AssignStmt {
            left: Box::new(clone_node(left)),
            right: Box::new(clone_node(right)),
            kind: kind.clone(),
        },
        Node::Ident { name, kind } => Node::Ident { name: name.clone(), kind: kind.clone() },
        Node::Atomic { value } => Node::Atomic { value: value.clone() },
        Node::Call { name, arguments, returns: rets } => Node::Call {
            name: name.clone(),
            arguments: clone_nodes(arguments),
            returns: clone_nodes(rets),
        },
        Node::MethodCall { name, target, arguments, returns: rets } => Node::MethodCall {
            name: name.clone(),
            target: target.clone(),
            arguments: clone_nodes(arguments),
            returns: clone_nodes(rets),
        },
        Node::MMExpression { expression } => Node::MMExpression { expression: expression.clone() },
        Node::Type { name } => Node::Type { name: name.clone() },
        Node::Conditional { condition, consequence, alternative } => Node::Conditional {
            condition: Box::new(clone_node(condition)),
            consequence: clone_nodes(consequence),
            alternative: clone_nodes(alternative),
        },
        Node::ForLoop { variable, range, body } => Node::ForLoop {
            variable: variable.clone(),
            range: (Box::new(clone_node(&range.0)), Box::new(clone_node(&range.1))),
            body: clone_nodes(body),
        },
        Node::Array { elements } => Node::Array { elements: clone_nodes(elements) },
        Node::EmptyNode => Node::EmptyNode,
        Node::Object { name, kind } => Node::Object { name: name.clone(), kind: kind.clone() },
        Node::Break {  } => Node::Break {  },
        Node::IndexExpression { left, index } => Node::IndexExpression {
            left: Box::new(clone_node(left)),
            index: Box::new(clone_node(index)),
        },
        Node::FunctionDecl { name, arguments, returns: rets, body } => Node::FunctionDecl {
            name: Box::new(clone_node(name)),
            arguments: clone_nodes(arguments),
            returns: clone_nodes(rets),
            body: clone_nodes(body),
        },
        Node::Return { value } => Node::Return { value: Box::new(clone_node(value)) },
        Node::HMap { values } => Node::HMap { values: clone_pairs(values) },
    }
}

impl Clone for Node {
    fn clone(&self) -> (res: Self)
        ensures
            res@ == self@,
    {
        clone_node(self)
    }
}

/// What `{:?}` prints for a string.
pub uninterp spec fn str_debug_text(s: Seq<char>) -> Seq<char>;

/// `format!("{:?}", s)` on a string.
#[verifier::external_body]
pub(crate) fn str_debug_string(s: &String) -> (res: String)
    ensures
        res@ == str_debug_text(s@),
{
    format!("{:?}", s)
}

/// The symbol an operator is written with.
pub open spec fn op_symbol(op: OperatorKind) -> Seq<char> {
    match op {
        OperatorKind::ForAll => "∀"@,
        OperatorKind::Exists => "∃"@,
        OperatorKind::Implies => "→"@,
        OperatorKind::Disjunction => "∨"@,
        OperatorKind::Conjunction => "∧"@,
        OperatorKind::Equality => "="@,
        OperatorKind::ElementOf => "∈"@,
        OperatorKind::Identifier => "Identifier"@,
        OperatorKind::Add => "+"@,
        OperatorKind::Subtract => "-"@,
        OperatorKind::Multiply => "*"@,
        OperatorKind::Divide => "/"@,
        OperatorKind::Modulo => "%"@,
        OperatorKind::BitwiseAnd => "&"@,
        OperatorKind::BitwiseOr => "|"@,
        OperatorKind::BitwiseXor => "^"@,
        OperatorKind::ShiftLeft => "<<"@,
        OperatorKind::ShiftRight => ">>"@,
        OperatorKind::Negation => "¬"@,
        OperatorKind::IsEqual => "=="@,
        OperatorKind::Or => "||"@,
        OperatorKind::LessThan => "<"@,
        OperatorKind::GreaterThan => ">"@,
        OperatorKind::Biconditional => "↔"@,
        OperatorKind::And => "&&"@,
    }
}

impl OperatorKind {
    /// The symbol the operator is written with.
    pub fn to_string(&self) -> (res: String)
        ensures
            res@ == op_symbol(*self),
    {
        match self {
            OperatorKind::ForAll => owned("∀"),
            OperatorKind::Exists => owned("∃"),
            OperatorKind::Implies => owned("→"),
            OperatorKind::Disjunction => owned("∨"),
            OperatorKind::Conjunction => owned("∧"),
            OperatorKind::Equality => owned("="),
            OperatorKind::ElementOf => owned("∈"),
            OperatorKind::Identifier => owned("Identifier"),
            OperatorKind::Add => owned("+"),
            OperatorKind::Subtract => owned("-"),
            OperatorKind::Multiply => owned("*"),
            OperatorKind::Divide => owned("/"),
            OperatorKind::Modulo => owned("%"),
            OperatorKind::BitwiseAnd => owned("&"),
            OperatorKind::BitwiseOr => owned("|"),
            OperatorKind::BitwiseXor => owned("^"),
            OperatorKind::ShiftLeft => owned("<<"),
            OperatorKind::ShiftRight => owned(">>"),
            OperatorKind::Negation => owned("¬"),
            OperatorKind::IsEqual => owned("=="),
            OperatorKind::Or => owned("||"),
            OperatorKind::LessThan => owned("<"),
            OperatorKind::GreaterThan => owned(">"),
            OperatorKind::Biconditional => owned("↔"),
            OperatorKind::And => owned("&&"),
        }
    }
}

/// Whether a node can be displayed: display is not defined for conditionals,
/// and the parts that are displayed (not debug-printed) must be displayable too.
pub open spec fn displayable(n: SNode) -> bool
    decreases n,
{
    match n {
        SNode::BinaryExpression { left, right, .. } => displayable(*left) && displayable(*right),
        SNode::UnaryExpression { right, .. } => displayable(*right),
        SNode::AssignStmt { left, right, .. } => displayable(*left) && displayable(*right),
        SNode::Conditional { .. } => false,
        SNode::ForLoop { range, .. } => displayable(*range.0) && displayable(*range.1),
        SNode::IndexExpression { left, index } => displayable(*left) && displayable(*index),
        SNode::FunctionDecl { name, .. } => displayable(*name),
        _ => true,
    }
}

/// The display text of a node: the notation of formulas for logical operators,
/// `(left op right)` for the others, and debug output for lists.
pub open spec fn display_node(n: SNode) -> Seq<char>
    decreases n,
{
    match n {
        SNode::BinaryExpression { left, operator, right } => {
            let l = display_node(*left);
            let r = display_node(*right);
            match operator {
                OperatorKind::ForAll => "∀"@ + l + r,
                OperatorKind::Equality => l + " = "@ + r,
                OperatorKind::ElementOf => l + " ∈ "@ + r,
                OperatorKind::Exists => "∃"@ + l + r,
                OperatorKind::Implies => "("@ + l + " → "@ + r + ")"@,
                OperatorKind::Disjunction => l + " ∨ "@ + r,
                _ => "("@ + l + " "@ + op_symbol(operator) + " "@ + r + ")"@,
            }
        },
        SNode::UnaryExpression { operator, right } => "("@ + op_symbol(operator) + " "@
            + display_node(*right) + ")"@,
        SNode::Identifier { value } => value,
        SNode::AssignStmt { left, right, .. } => display_node(*left) + " = "@ + display_node(
            *right,
        ),
        SNode::Atomic { value } => display_value(value),
        SNode::Call { name, arguments, .. } => name + "("@ + nodes_debug_text(arguments) + ")"@,
        SNode::MMExpression { expression } => expression,
        SNode::Type { name } => name,
        SNode::Conditional { .. } => Seq::empty(),
        SNode::ForLoop { variable, range, body } => "for "@ + variable + " in "@ + display_node(
            *range.0,
        ) + ".."@ + display_node(*range.1) + " { "@ + nodes_debug_text(body) + " }"@,
        SNode::EmptyNode => Seq::empty(),
        SNode::Object { name, .. } => name,
        SNode::Array { elements } => "["@ + nodes_debug_text(elements) + "]"@,
        SNode::Break => "break"@,
        SNode::IndexExpression { left, index } => display_node(*left) + "["@ + display_node(*index)
            + "]"@,
        SNode::Ident { name, kind } => name + " : "@ + kind,
        SNode::FunctionDecl { name, arguments, returns: rets, body } => "fn "@ + display_node(*name)
            + "("@ + nodes_debug_text(arguments) + ") -> "@ + nodes_debug_text(rets) + " { "@
            + nodes_debug_text(body) + " }"@,
        SNode::Return { value } => "return "@ + debug_text(*value),
        SNode::HMap { values } => pairs_debug_text(values),
        SNode::MethodCall { name, target, arguments, returns: rets } => target + "."@ + name + "("@
            + nodes_debug_text(arguments) + ") -> "@ + nodes_debug_text(rets),
    }
}

/// What `left` gives for each kind of node, where it gives anything.
pub open spec fn node_left(n: SNode) -> Option<SNode> {
    match n {
        SNode::Atomic { .. } => Some(n),
        SNode::AssignStmt { left, .. } => Some(*left),
        SNode::BinaryExpression { left, .. } => Some(*left),
        SNode::Object { .. } => Some(n),
        SNode::IndexExpression { .. } => Some(n),
        SNode::Call { name, arguments, .. } => Some(
            SNode::Call { name, arguments, returns: Seq::empty() },
        ),
        SNode::Ident { .. } => Some(n),
        _ => None,
    }
}

/// The right operand of an operator node.
pub open spec fn node_right(n: SNode) -> Option<SNode> {
    match n {
        SNode::BinaryExpression { right, .. } => Some(*right),
        SNode::UnaryExpression { right, .. } => Some(*right),
        _ => None,
    }
}

/// The value of an atomic node, the empty string for any other node.
pub open spec fn node_val(n: SNode) -> SValue {
    match n {
        SNode::Atomic { value } => value,
        _ => SValue::Str(Seq::empty()),
    }
}

/// The name of the kind of a node, as the evaluator tells kinds apart.
pub open spec fn node_type_name(n: SNode) -> Seq<char> {
    match n {
        SNode::BinaryExpression { .. } => "BinaryExpression"@,
        SNode::UnaryExpression { .. } => "UnaryExpression"@,
        SNode::Array { .. } => "Array"@,
        SNode::AssignStmt { .. } => "AssignStmt"@,
        SNode::Ident { .. } => "Ident"@,
        SNode::Atomic { .. } => "Atomic"@,
        SNode::Call { .. } => "Call"@,
        SNode::Conditional { .. } => "Conditional"@,
        SNode::EmptyNode => "EmptyNode"@,
        _ => "MissingType"@,
    }
}

/// The operator of an operator node; identifiers count as the identifier operator.
pub open spec fn node_operator(n: SNode) -> Option<OperatorKind> {
    match n {
        SNode::BinaryExpression { operator, .. } => Some(operator),
        SNode::UnaryExpression { operator, .. } => Some(operator),
        SNode::Identifier { .. } => Some(OperatorKind::Identifier),
        _ => None,
    }
}

/// The error text for a node that has no such part.
pub open spec fn unexpected_token_text(n: SNode) -> Seq<char> {
    "unexpected token "@ + debug_text(n)
}

fn unexpected_token_error(n: &Node) -> (res: String)
    ensures
        res@ == unexpected_token_text(n@),
{
    let mut e = owned("unexpected token ");
    let d = node_debug_string(n);
    push_all(&mut e, d.as_str());
    e
}

#[verifier::rlimit(40)]
fn display_into(n: &Node, out: &mut String)
    requires
        displayable(n@),
    ensures
        final(out)@ == old(out)@ + display_node(n@),
    decreases n,
{
    let ghost start = out@;
    match n {
        Node::BinaryExpression { left, operator, right } => {
            match operator {
                OperatorKind::ForAll => {
                    push_all(out, "∀");
                    display_into(left, out);
                    display_into(right, out);
                },
                OperatorKind::Equality => {
                    display_into(left, out);
                    push_all(out, " = ");
                    display_into(right, out);
                },
                OperatorKind::ElementOf => {
                    display_into(left, out);
                    push_all(out, " ∈ ");
                    display_into(right, out);
                },
                OperatorKind::Exists => {
                    push_all(out, "∃");
                    display_into(left, out);
                    display_into(right, out);
                },
                OperatorKind::Implies => {
                    push_all(out, "(");
                    display_into(left, out);
                    push_all(out, " → ");
                    display_into(right, out);
                    push_all(out, ")");
                },
                OperatorKind::Disjunction => {
                    display_into(left, out);
                    push_all(out, " ∨ ");
                    display_into(right, out);
                },
                _ => {
                    push_all(out, "(");
                    display_into(left, out);
                    push_all(out, " ");
                    let s = operator.to_string();
                    push_all(out, s.as_str());
                    push_all(out, " ");
                    display_into(right, out);
                    push_all(out, ")");
                },
            }
        },
        Node::UnaryExpression { operator, right } => {
            push_all(out, "(");
            let s = operator.to_string();
            push_all(out, s.as_str());
            push_all(out, " ");
            display_into(right, out);
            push_all(out, ")");
        },
        Node::Identifier { value } => {
            push_all(out, value.as_str());
        },
        Node::AssignStmt { left, right, .. } => {
            display_into(left, out);
            push_all(out, " = ");
            display_into(right, out);
        },
        Node::Atomic { value } => {
            let s = value.to_string();
            push_all(out, s.as_str());
        },
        Node::Call { name, arguments, .. } => {
            push_all(out, name.as_str());
            push_all(out, "(");
            let d = nodes_debug_string(arguments);
            push_all(out, d.as_str());
            push_all(out, ")");
        },
        Node::MMExpression { expression } => {
            push_all(out, expression.as_str());
        },
        Node::Type { name } => {
            push_all(out, name.as_str());
        },
        Node::Conditional { .. } => {},
        Node::ForLoop { variable, range, body } => {
            push_all(out, "for ");
            push_all(out, variable.as_str());
            push_all(out, " in ");
            display_into(&range.0, out);
            push_all(out, "..");
            display_into(&range.1, out);
            push_all(out, " { ");
            let d = nodes_debug_string(body);
            push_all(out, d.as_str());
            push_all(out, " }");
        },
        Node::EmptyNode => {},
        Node::Object { name, .. } => {
            push_all(out, name.as_str());
        },
        Node::Array { elements } => {
            push_all(out, "[");
            let d = nodes_debug_string(elements);
            push_all(out, d.as_str());
            push_all(out, "]");
        },
        Node::Break {  } => {
            push_all(out, "break");
        },
        Node::IndexExpression { left, index } => {
            display_into(left, out);
            push_all(out, "[");
            display_into(index, out);
            push_all(out, "]");
        },
        Node::Ident { name, kind } => {
            push_all(out, name.as_str());
            push_all(out, " : ");
            push_all(out, kind.as_str());
        },
        Node::FunctionDecl { name, arguments, returns: rets, body } => {
            push_all(out, "fn ");
            display_into(name, out);
            push_all(out, "(");
            let d = nodes_debug_string(arguments);
            push_all(out, d.as_str());
            push_all(out, ") -> ");
            let d = nodes_debug_string(rets);
            push_all(out, d.as_str());
            push_all(out, " { ");
            let d = nodes_debug_string(body);
            push_all(out, d.as_str());
            push_all(out, " }");
        },
        Node::Return { value } => {
            push_all(out, "return ");
            let d = node_debug_string(value);
            push_all(out, d.as_str());
        },
        Node::HMap { values } => {
            let d = pairs_debug_string(values);
            push_all(out, d.as_str());
        },
        Node::MethodCall { name, target, arguments, returns: rets } => {
            push_all(out, target.as_str());
            push_all(out, ".");
            push_all(out, name.as_str());
            push_all(out, "(");
            let d = nodes_debug_string(arguments);
            push_all(out, d.as_str());
            push_all(out, ") -> ");
            let d = nodes_debug_string(rets);
            push_all(out, d.as_str());
        },
    }
    assert(out@ =~= start + display_node(n@));
}

impl Node {
    /// The operator of a binary or unary node; an identifier counts as the
    /// identifier operator.
    pub fn operator(&self) -> (res: OperatorKind)
        requires
            node_operator(self@) is Some,
        ensures
            node_operator(self@) == Some(res),
    {
        match self {
            Node::BinaryExpression { operator, .. } => *operator,
            Node::UnaryExpression { operator, .. } => *operator,
            _ => OperatorKind::Identifier,
        }
    }

    /// The left part of a node: the left operand of a binary expression, the
    /// target of an assignment, a copy of the node itself for atoms, objects,
    /// index expressions and identifiers, and the call without its returns.
    pub fn left(&self) -> (res: Result<Box<Node>, String>)
        ensures
            match res {
                Ok(b) => node_left(self@) == Some(b@),
                Err(e) => node_left(self@) is None && e@ == unexpected_token_text(self@),
            },
    {
        match self {
            Node::Atomic { value } => Ok(Box::new(Node::Atomic { value: value.clone() })),
            Node::AssignStmt { left, .. } => Ok(Box::new(clone_node(left))),
            Node::BinaryExpression { left, .. } => Ok(Box::new(clone_node(left))),
            Node::Object { name, kind } => Ok(
                Box::new(Node::Object { name: name.clone(), kind: kind.clone() }),
            ),
            Node::IndexExpression { left, index } => Ok(
                Box::new(
                    Node::IndexExpression {
                        left: Box::new(clone_node(left)),
                        index: Box::new(clone_node(index)),
                    },
                ),
            ),
            Node::Call { name, arguments, .. } => {
                let r = Node::Call {
                    name: name.clone(),
                    arguments: clone_nodes(arguments),
                    returns: Vec::new(),
                };
                proof {
                    assert(view_nodes(Seq::<Node>::empty()) =~= Seq::<SNode>::empty());
                }
                Ok(Box::new(r))
            },
            Node::Ident { name, kind } => Ok(
                Box::new(Node::Ident { name: name.clone(), kind: kind.clone() }),
            ),
            _ => Err(unexpected_token_error(self)),
        }
    }

    /// The right operand of a binary or unary expression.
    pub fn right(&self) -> (res: Result<&Node, String>)
        ensures
            match res {
                Ok(r) => node_right(self@) == Some(r@),
                Err(e) => node_right(self@) is None && e@ == unexpected_token_text(self@),
            },
    {
        match self {
            Node::BinaryExpression { right, .. } => Ok(right),
            Node::UnaryExpression { right, .. } => Ok(right),
            _ => Err(unexpected_token_error(self)),
        }
    }

    /// The value of an atomic node; the empty string for any other node.
    pub fn val(&self) -> (res: Value)
        ensures
            res@ == node_val(self@),
    {
        match self {
            Node::Atomic { value } => value.clone(),
            _ => Value::Str(String::new()),
        }
    }

    /// The name of the node's kind.
    pub fn node_type(&self) -> (res: &str)
        ensures
            res@ == node_type_name(self@),
    {
        match self {
            Node::BinaryExpression { .. } => "BinaryExpression",
            Node::UnaryExpression { .. } => "UnaryExpression",
            Node::Array { .. } => "Array",
            Node::AssignStmt { .. } => "AssignStmt",
            Node::Ident { .. } => "Ident",
            Node::Atomic { .. } => "Atomic",
            Node::Call { .. } => "Call",
            Node::Conditional { .. } => "Conditional",
            Node::EmptyNode => "EmptyNode",
            _ => "MissingType",
        }
    }

    /// The display text of the node.
    pub fn to_string(&self) -> (res: String)
        requires
            displayable(self@),
        ensures
            res@ == display_node(self@),
    {
        let mut out = String::new();
        display_into(self, &mut out);
        assert(out@ =~= display_node(self@));
        out
    }
}

} // verus!

