//! The evaluator of the language: a program's nodes, its declarations, and the
//! lines it prints.
use vstd::prelude::*;
use crate::node::{
    Node, SNode, OperatorKind, clone_node, clone_nodes, clone_pairs, view_nodes, view_pairs,
    lemma_view_nodes, lemma_view_pairs, node_debug_string, value_debug_string, str_debug_string,
    left_result_debug_string, debug_text, node_eq, view_node,
};
use crate::value::{Value, SValue, compare_value};
use crate::scope::Declarations;
use crate::internal_types::{
    fetch_array, fetch_hash_map, fetch_integer, fetch_string, text_with, s_fetch_array,
    s_fetch_string, s_fetch_integer, s_fetch_hash_map,
};
use crate::semantics::{
    Env, Run, Upd, s_upsert, s_extract_index, s_replace_var, s_replace_var_assign, s_operand,
    s_eval_binary, s_eval_unary, atomic_binary, int_arith, bit_op, shift_ok, atomic,
    evaluated_binary_operator, s_eval_array, s_eval_method_call, pairs_get, pairs_insert, lookup,
    with_decls, printed, s_eval_node, s_eval_call, s_eval_function, s_eval_body, s_eval_block,
    s_eval_block_upsert, s_eval_conditional, s_eval_for, s_eval_iterations, s_eval_pass,
    s_bind_args, s_unbind_args, index_print_line, left_result, var_assign, ends, lemma_block_fuel,
};
use crate::text::{owned, push_all, char_to_string, text_is};

verus! {

/// The printed lines as character sequences.
pub open spec fn lines_view(s: Seq<String>) -> Seq<Seq<char>> {
    s.map_values(|x: String| x@)
}

/// Whether a result and the state after it are what a run gives.
pub open spec fn node_outcome(res: Result<Node, String>, after: Env, r: Run<SNode>) -> bool {
    match r {
        Run::Done(e, v) => res matches Ok(n) && n@ == v && after == e,
        Run::Failed(e, m) => res matches Err(s) && s@ == m && after == e,
        _ => false,
    }
}

/// Whether a result without a value and the state after it are what a run gives.
pub open spec fn unit_outcome(res: Result<(), String>, after: Env, r: Run<SNode>) -> bool {
    match r {
        Run::Done(e, _) => res is Ok && after == e,
        Run::Failed(e, m) => res matches Err(s) && s@ == m && after == e,
        _ => false,
    }
}

/// `prefix`, then `middle`, then `suffix`.
pub(crate) fn text_around(prefix: &str, middle: &String, suffix: &str) -> (res: String)
    ensures
        res@ == prefix@ + middle@ + suffix@,
{
    let mut res = text_with(prefix, middle);
    push_all(&mut res, suffix);
    res
}

/// The index an atomic integer node stands for.
pub fn extract_index(index: Node) -> (res: Result<usize, String>)
    ensures
        match s_extract_index(index@) {
            Ok(i) => res == Ok::<usize, String>(i),
            Err(m) => res matches Err(e) && e@ == m,
        },
{
    match index {
        Node::Atomic { value: Value::Int(i) } => Ok(i as usize),
        _ => Err(
            text_around(
                "expected atomic but received ",
                &node_debug_string(&index),
                " while extracting index",
            ),
        ),
    }
}

/// A program: the nodes to evaluate, the names they declare, and the lines
/// they print.
#[derive(Debug)]
pub struct Ast {
    pub nodes: Vec<Node>,
    pub declarations: Declarations,
    pub output: Vec<String>,
}

impl Default for Ast {
    fn default() -> (res: Self)
        ensures
            res.nodes@ == Seq::<Node>::empty(),
            res.declarations@ == Map::<Seq<char>, SNode>::empty(),
            res.output@ == Seq::<String>::empty(),
    {
        Self::new()
    }
}

impl Ast {
    /// The state the program runs in.
    pub open spec fn env(&self) -> Env {
        Env { decls: self.declarations@, out: lines_view(self.output@) }
    }

    /// An empty program.
    pub fn new() -> (res: Self)
        ensures
            res.nodes@ == Seq::<Node>::empty(),
            res.declarations@ == Map::<Seq<char>, SNode>::empty(),
            res.output@ == Seq::<String>::empty(),
    {
        Self { nodes: Vec::new(), declarations: Declarations::new(), output: Vec::new() }
    }

    /// Appends a node to the program.
    pub fn add_node(&mut self, node: Node)
        ensures
            final(self).nodes@ == old(self).nodes@.push(node),
            final(self).declarations@ == old(self).declarations@,
            final(self).output@ == old(self).output@,
    {
        self.nodes.push(node);
    }

    /// Enters a declaration (see [`s_upsert`]); a missing array or an index
    /// past its end panics, so neither is accepted.
    pub fn upsert_declaration(&mut self, node: Node) -> (res: Result<(), String>)
        requires
            !(s_upsert(old(self).declarations@, node@) is Panic),
        ensures
            final(self).nodes@ == old(self).nodes@,
            final(self).output@ == old(self).output@,
            match s_upsert(old(self).declarations@, node@) {
                Upd::Done(d) => res is Ok && final(self).declarations@ == d,
                Upd::Failed(m) => res matches Err(e) && e@ == m && final(self).declarations@ == old(
                    self,
                ).declarations@,
                Upd::Panic => false,
            },
    {
        let ghost nv = node@;
        match node {
            Node::AssignStmt { left, right, .. } => {
                let ghost lv = (*left)@;
                assert(nv matches SNode::AssignStmt { left: lft, right: rgt, .. } && *lft == lv
                    && *rgt == (*right)@);
                match *left {
                    Node::Identifier { value: name } => {
                        self.declarations.insert(name, *right);
                    },
                    Node::Ident { name, .. } => {
                        self.declarations.insert(name, *right);
                    },
                    Node::IndexExpression { left: left2, index } => {
                        let ghost d0 = self.declarations@;
                        let ghost l2 = (*left2)@;
                        let ghost ix = (*index)@;
                        let ghost r = (*right)@;
                        assert(lv == SNode::IndexExpression { left: Box::new(l2), index: Box::new(ix) });
                        let name = fetch_string(*left2)?;
                        assert(s_fetch_string(l2) == Ok::<Seq<char>, Seq<char>>(name@));
                        let array = clone_node(
                            self.declarations.get(name.as_str()).expect("var not found"),
                        );
                        let mut elements = fetch_array(array)?;
                        let i = extract_index(*index)?;
                        let ghost before = elements@;
                        proof {
                            lemma_view_nodes(before);
                        }
                        elements.set(i, *right);
                        proof {
                            lemma_view_nodes(elements@);
                            assert(view_nodes(elements@) =~= view_nodes(before).update(
                                i as int,
                                elements@[i as int]@,
                            ));
                        }
                        assert(s_fetch_array(d0[name@]) matches Ok(els) && els == view_nodes(before));
                        assert(s_extract_index(ix) == Ok::<usize, Seq<char>>(i));
                        self.declarations.insert(name, Node::Array { elements });
                    },
                    other => {
                        return Err(
                            text_around(
                                "invalid type ",
                                &node_debug_string(&other),
                                " for left branch",
                            ),
                        );
                    },
                }
            },
            Node::FunctionDecl { name, arguments, returns: rets, body } => {
                let n = fetch_string(clone_node(&name))?;
                self.declarations.insert(n, Node::FunctionDecl { name, arguments, returns: rets, body });
            },
            Node::Atomic { .. } => {},
            Node::EmptyNode => {},
            Node::HMap { values } => {
                self.declarations.insert(String::new(), Node::HMap { values });
            },
            _ => {
                return Err(text_with("Invalid node type: ", &node_debug_string(&node)));
            },
        }
        Ok(())
    }

    /// Drops the declaration of `name`.
    pub fn remove_declaration(&mut self, name: &str) -> (res: Result<(), String>)
        ensures
            res is Ok,
            final(self).declarations@ == old(self).declarations@.remove(name@),
            final(self).nodes@ == old(self).nodes@,
            final(self).output@ == old(self).output@,
    {
        self.declarations.remove(name);
        Ok(())
    }

    /// The declaration of `name`; a missing one panics, so it is not accepted.
    fn declared(&self, name: &str) -> (res: Node)
        requires
            self.declarations@.contains_key(name@),
        ensures
            res@ == self.declarations@[name@],
    {
        clone_node(self.declarations.get(name).expect("unexpected failure"))
    }

    /// Replaces a variable by its declared value (see [`s_replace_var`]).
    fn replace_var(&self, node: Node) -> (res: Result<Node, String>)
        requires
            !(s_replace_var(self.env(), node@) is Panic),
        ensures
            node_outcome(res, self.env(), s_replace_var(self.env(), node@)),
    {
        match node {
            Node::AssignStmt { left, .. } => {
                let name = fetch_string(*left)?;
                Ok(self.declared(name.as_str()))
            },
            Node::Object { name, .. } => Ok(self.declared(name.as_str())),
            Node::Atomic { value } => Ok(Node::Atomic { value }),
            Node::IndexExpression { left, index } => self.replace_var_assign(*left, index),
            Node::Ident { name, .. } => Ok(self.declared(name.as_str())),
            _ => Ok(node),
        }
    }

    fn replace_var_assign(&self, node: Node, index: Box<Node>) -> (res: Result<Node, String>)
        requires
            !(s_replace_var_assign(self.env(), node@, (*index)@) is Panic),
        ensures
            node_outcome(res, self.env(), s_replace_var_assign(self.env(), node@, (*index)@)),
    {
        match node {
            Node::AssignStmt { left, .. } => {
                let name = fetch_string(*left)?;
                let elements = self.declared(name.as_str());
                let result = fetch_array(elements)?;
                let i = extract_index(*index)?;
                proof {
                    lemma_view_nodes(result@);
                }
                Ok(Node::Atomic { value: result[i].val() })
            },
            Node::IndexExpression { index: ref inner, .. } => {
                let inner = clone_node(inner);
                let name = fetch_string(node)?;
                let array = self.declared(name.as_str());
                let outer_index = fetch_integer(inner)?;
                let elements = fetch_array(array)?;
                proof {
                    lemma_view_nodes(elements@);
                }
                let child_node = clone_node(&elements[outer_index as usize]);
                let child_array = fetch_array(child_node)?;
                proof {
                    lemma_view_nodes(child_array@);
                }
                let res = clone_node(&child_array[0]);
                Ok(res)
            },
            _ => Err(owned("Invalid type")),
        }
    }
}

/// The first position of a map literal's entries whose key is `k`.
pub open spec fn first_key(s: Seq<(SNode, SNode)>, k: SNode, i: int) -> bool {
    &&& 0 <= i < s.len()
    &&& s[i].0 == k
    &&& forall|j: int| 0 <= j < i ==> s[j].0 != k
}

proof fn lemma_pairs_get_at(s: Seq<(SNode, SNode)>, k: SNode, i: int)
    requires
        first_key(s, k, i),
    ensures
        pairs_get(s, k) == Some(s[i].1),
    decreases i,
{
    if i > 0 {
        lemma_pairs_get_at(s.drop_first(), k, i - 1);
    }
}

proof fn lemma_pairs_get_none(s: Seq<(SNode, SNode)>, k: SNode)
    requires
        forall|j: int| 0 <= j < s.len() ==> s[j].0 != k,
    ensures
        pairs_get(s, k) is None,
    decreases s.len(),
{
    if s.len() > 0 {
        lemma_pairs_get_none(s.drop_first(), k);
    }
}

proof fn lemma_pairs_insert_at(s: Seq<(SNode, SNode)>, k: SNode, x: SNode, i: int)
    requires
        first_key(s, k, i),
    ensures
        pairs_insert(s, k, x) == s.update(i, (k, x)),
    decreases i,
{
    if i > 0 {
        lemma_pairs_insert_at(s.drop_first(), k, x, i - 1);
        assert(seq![s[0]] + s.drop_first().update(i - 1, (k, x)) =~= s.update(i, (k, x)));
    }
}

proof fn lemma_pairs_insert_none(s: Seq<(SNode, SNode)>, k: SNode, x: SNode)
    requires
        forall|j: int| 0 <= j < s.len() ==> s[j].0 != k,
    ensures
        pairs_insert(s, k, x) == s.push((k, x)),
    decreases s.len(),
{
    if s.len() > 0 {
        lemma_pairs_insert_none(s.drop_first(), k, x);
        assert(seq![s[0]] + s.drop_first().push((k, x)) =~= s.push((k, x)));
    }
}

/// The first position of the entries whose key is `key`.
fn find_key(v: &Vec<(Node, Node)>, key: &Node) -> (res: Option<usize>)
    ensures
        match res {
            Some(i) => first_key(view_pairs(v@), key@, i as int),
            None => forall|j: int|
                0 <= j < view_pairs(v@).len() ==> view_pairs(v@)[j].0 != key@,
        },
{
    proof {
        lemma_view_pairs(v@);
    }
    let mut i: usize = 0;
    while i < v.len()
        invariant
            i <= v.len(),
            view_pairs(v@).len() == v@.len(),
            forall|j: int|
                0 <= j < v@.len() ==> #[trigger] view_pairs(v@)[j] == (view_node(v@[j].0), view_node(v@[j].1)),
            forall|j: int| 0 <= j < i ==> view_pairs(v@)[j].0 != key@,
        decreases v.len() - i,
    {
        if node_eq(&v[i].0, key) {
            return Some(i);
        }
        i += 1;
    }
    None
}

/// The value a map literal's entries give `key`, if any.
fn pairs_lookup(v: &Vec<(Node, Node)>, key: &Node) -> (res: Option<Node>)
    ensures
        match pairs_get(view_pairs(v@), key@) {
            Some(x) => res matches Some(n) && n@ == x,
            None => res is None,
        },
{
    proof {
        lemma_view_pairs(v@);
    }
    match find_key(v, key) {
        Some(i) => {
            proof {
                lemma_pairs_get_at(view_pairs(v@), key@, i as int);
            }
            Some(clone_node(&v[i].1))
        },
        None => {
            proof {
                lemma_pairs_get_none(view_pairs(v@), key@);
            }
            None
        },
    }
}

/// Binds `key` to `value` in a map literal's entries.
fn pairs_store(v: &mut Vec<(Node, Node)>, key: Node, value: Node)
    ensures
        view_pairs(final(v)@) == pairs_insert(view_pairs(old(v)@), key@, value@),
{
    let ghost before = view_pairs(v@);
    proof {
        lemma_view_pairs(v@);
    }
    match find_key(v, &key) {
        Some(i) => {
            proof {
                lemma_pairs_insert_at(before, key@, value@, i as int);
            }
            v.set(i, (key, value));
            proof {
                lemma_view_pairs(v@);
                assert(view_pairs(v@) =~= before.update(i as int, (key@, value@)));
            }
        },
        None => {
            proof {
                lemma_pairs_insert_none(before, key@, value@);
            }
            v.push((key, value));
            proof {
                lemma_view_pairs(v@);
                assert(view_pairs(v@) =~= before.push((key@, value@)));
            }
        },
    }
}


impl Ast {
    /// An operand, replaced by its value where it is an assignment or (when
    /// `also_ident`) a typed identifier.
    fn operand(&self, n: Node, also_ident: bool) -> (res: Result<Node, String>)
        requires
            !(s_operand(self.env(), n@, also_ident) is Panic),
        ensures
            node_outcome(res, self.env(), s_operand(self.env(), n@, also_ident)),
    {
        let replace = match &n {
            Node::AssignStmt { .. } => true,
            Node::Ident { .. } => also_ident,
            _ => false,
        };
        if replace {
            self.replace_var(n)
        } else {
            Ok(n)
        }
    }

    /// Two atomic operands under a binary operator.
    fn combine_atomic(&self, operator: OperatorKind, left_val: Value, right_val: Value) -> (res: Result<Node, String>)
        requires
            evaluated_binary_operator(operator),
            !(atomic_binary(self.env(), operator, left_val@, right_val@) is Panic),
        ensures
            node_outcome(res, self.env(), atomic_binary(self.env(), operator, left_val@, right_val@)),
    {
        match operator {
            OperatorKind::Add | OperatorKind::Subtract | OperatorKind::Multiply
            | OperatorKind::Divide | OperatorKind::Modulo => {
                match (left_val, right_val) {
                    (Value::Int(left), Value::Int(right)) => {
                        let value = match operator {
                            OperatorKind::Add => left + right,
                            OperatorKind::Subtract => left - right,
                            OperatorKind::Multiply => left * right,
                            OperatorKind::Divide => left.checked_div(right).unwrap(),
                            _ => left.checked_rem(right).unwrap(),
                        };
                        Ok(Node::Atomic { value: Value::Int(value) })
                    },
                    _ => Err(owned("Invalid types")),
                }
            },
            OperatorKind::BitwiseAnd | OperatorKind::BitwiseOr | OperatorKind::BitwiseXor => {
                let (a, b) = match (left_val, right_val) {
                    (Value::Bin(left), Value::Bin(right)) => (left, right),
                    (Value::Int(left), Value::Bin(right)) => (left as u32, right),
                    (Value::Int(left), Value::Int(right)) => (left as u32, right as u32),
                    _ => {
                        return Err(owned("Invalid types"));
                    },
                };
                let value = match operator {
                    OperatorKind::BitwiseAnd => a & b,
                    OperatorKind::BitwiseOr => a | b,
                    _ => a ^ b,
                };
                Ok(Node::Atomic { value: Value::Bin(value) })
            },
            OperatorKind::ShiftLeft => {
                match (left_val, right_val) {
                    (Value::Bin(left), Value::Int(right)) => Ok(
                        Node::Atomic { value: Value::Bin(left << (right as u32)) },
                    ),
                    (Value::Int(left), Value::Bin(right)) => Ok(
                        Node::Atomic { value: Value::Bin(left as u32 & right) },
                    ),
                    (Value::Int(left), Value::Int(right)) => Ok(
                        Node::Atomic { value: Value::Bin((left as u32) << (right as u32)) },
                    ),
                    _ => Err(owned("Invalid types")),
                }
            },
            _ => {
                match (left_val, right_val) {
                    (Value::Bin(left), Value::Int(right)) => Ok(
                        Node::Atomic { value: Value::Bin(left >> (right as u32)) },
                    ),
                    _ => Err(owned("Invalid types")),
                }
            },
        }
    }

    /// Evaluates a binary expression (see [`s_eval_binary`]).
    fn eval_binary_expression(&self, left: Node, operator: OperatorKind, right: Node) -> (res: Result<Node, String>)
        requires
            !(s_eval_binary(self.env(), left@, operator, right@) is Panic),
        ensures
            node_outcome(res, self.env(), s_eval_binary(self.env(), left@, operator, right@)),
    {
        match operator {
            OperatorKind::Add | OperatorKind::Subtract | OperatorKind::Multiply
            | OperatorKind::Divide | OperatorKind::Modulo | OperatorKind::BitwiseAnd
            | OperatorKind::BitwiseOr | OperatorKind::BitwiseXor | OperatorKind::ShiftLeft
            | OperatorKind::ShiftRight => {},
            _ => {
                return Err(owned("Unknown operator"));
            },
        }
        let also_ident = operator == OperatorKind::Add;
        let left = self.operand(left, also_ident)?;
        let right = self.operand(right, also_ident)?;
        if let Node::Atomic { value: left_val } = left {
            if let Node::Atomic { value: right_val } = right {
                return self.combine_atomic(operator, left_val, right_val);
            }
        }
        if also_ident {
            Err(owned("Invalid type"))
        } else {
            Ok(Node::EmptyNode)
        }
    }

    /// Evaluates a unary expression (see [`s_eval_unary`]).
    fn eval_unary_expression(&self, right: Node, operator: OperatorKind) -> (res: Result<Node, String>)
        requires
            !(s_eval_unary(self.env(), right@, operator) is Panic),
        ensures
            node_outcome(res, self.env(), s_eval_unary(self.env(), right@, operator)),
    {
        match operator {
            OperatorKind::Negation => {
                let right = self.operand(right, false)?;
                if let Node::Atomic { value: right_val } = right {
                    return match right_val {
                        Value::Bin(right) => Ok(Node::Atomic { value: Value::Bin(!right) }),
                        _ => Err(owned("Invalid types")),
                    };
                }
                Ok(right)
            },
            _ => Err(owned("Unknown operator")),
        }
    }
}

impl Ast {
    /// Reads the element an index expression names (see [`s_eval_array`]).
    fn eval_array(&self, node: Node) -> (res: Result<Node, String>)
        requires
            !(s_eval_array(self.env(), node@) is Panic),
        ensures
            node_outcome(res, self.env(), s_eval_array(self.env(), node@)),
        decreases node,
    {
        let ghost nv = node@;
        match node {
            Node::IndexExpression { left, index: sub_index } => {
                let ghost lv = (*left)@;
                assert(nv matches SNode::IndexExpression { left: l, index: i } && *l == lv && *i
                    == (*sub_index)@);
                match *left {
                    Node::IndexExpression { left: inner_left, index } => {
                        assert(lv == SNode::IndexExpression {
                            left: Box::new((*inner_left)@),
                            index: Box::new((*index)@),
                        });
                        let res = self.eval_array(*inner_left)?;
                        let name = fetch_string(res)?;
                        let blah = self.declared(name.as_str());
                        let array = fetch_array(blah)?;
                        let index = fetch_integer(*index)?;
                        let sub_index = fetch_integer(*sub_index)?;
                        proof {
                            lemma_view_nodes(array@);
                        }
                        let outer = clone_node(&array[index as usize]);
                        let inner = fetch_array(outer)?;
                        proof {
                            lemma_view_nodes(inner@);
                        }
                        let last = clone_node(&inner[sub_index as usize]);
                        Ok(last)
                    },
                    Node::AssignStmt { left: target, .. } => {
                        let ghost tv = (*target)@;
                        assert(lv matches SNode::AssignStmt { left: t, .. } && *t == tv);
                        match *target {
                            Node::Ident { name, .. } => {
                                assert(tv matches SNode::Ident { name: nm, .. } && nm == name@);
                                let string_node = self.declared(name.as_str());
                                match string_node {
                                    Node::Array { .. } => {
                                        let array = fetch_array(string_node)?;
                                        let index = fetch_integer(*sub_index)?;
                                        proof {
                                            lemma_view_nodes(array@);
                                        }
                                        let v = clone_node(&array[index as usize]);
                                        Ok(v)
                                    },
                                    Node::Atomic { .. } => {
                                        let replaced = self.replace_var(
                                            Node::Ident { name, kind: String::new() },
                                        )?;
                                        let s = fetch_string(replaced)?;
                                        let replaced_index = self.replace_var(*sub_index)?;
                                        let index = fetch_integer(replaced_index)?;
                                        let bytes = s.as_str().as_bytes();
                                        let v = bytes[index as usize] as char;
                                        Ok(Node::Atomic { value: Value::Str(char_to_string(v)) })
                                    },
                                    _ => Err(owned("Invalid type")),
                                }
                            },
                            _ => Ok(Node::EmptyNode),
                        }
                    },
                    _ => Ok(Node::EmptyNode),
                }
            },
            Node::Ident { name, kind } => Ok(Node::Ident { name, kind }),
            _ => Err(
                text_around(
                    "expected index expression but received ",
                    &node_debug_string(&node),
                    " while evaluating array",
                ),
            ),
        }
    }

    /// Calls `push` or `get` on a declared map (see [`s_eval_method_call`]).
    fn eval_method_call(&mut self, name: String, target: String, arguments: Vec<Node>) -> (res: Result<Node, String>)
        requires
            !(s_eval_method_call(old(self).env(), name@, target@, view_nodes(arguments@)) is Panic),
        ensures
            final(self).nodes@ == old(self).nodes@,
            node_outcome(
                res,
                final(self).env(),
                s_eval_method_call(old(self).env(), name@, target@, view_nodes(arguments@)),
            ),
    {
        proof {
            lemma_view_nodes(arguments@);
        }
        if text_is(&name, "push") {
            let array = self.declared(target.as_str());
            let mut elements = fetch_hash_map(array)?;
            pairs_store(&mut elements, clone_node(&arguments[0]), clone_node(&arguments[1]));
            let ghost ev = view_pairs(elements@);
            let ident = Node::AssignStmt {
                left: Box::new(Node::Ident { name: target, kind: owned("var") }),
                right: Box::new(Node::HMap { values: elements }),
                kind: owned("var"),
            };
            assert(ident@ == SNode::AssignStmt {
                left: Box::new(SNode::Ident { name: target@, kind: "var"@ }),
                right: Box::new(SNode::HMap { values: ev }),
                kind: "var"@,
            }) by {
                reveal_with_fuel(view_node, 3);
            }
            self.upsert_declaration(ident)?;
            Ok(Node::EmptyNode)
        } else if text_is(&name, "get") {
            let array = self.declared(target.as_str());
            let elements = fetch_hash_map(array)?;
            let key = clone_node(&arguments[0]);
            let value = pairs_lookup(&elements, &key).expect("missing key");
            Ok(value)
        } else {
            Err(text_with("Unknown method call ", &name))
        }
    }
}

impl Ast {
    /// Prints a line: appends it to the output.
    fn print_line(&mut self, line: String)
        ensures
            final(self).nodes@ == old(self).nodes@,
            final(self).env() == printed(old(self).env(), line@),
    {
        let ghost before = self.output@;
        self.output.push(line);
        assert(lines_view(self.output@) =~= lines_view(before).push(line@));
    }

    /// Evaluates a node (see [`s_eval_node`]).
    fn eval_node(&mut self, ast: Node, Ghost(fuel): Ghost<nat>) -> (res: Result<Node, String>)
        requires
            ends(s_eval_node(old(self).env(), ast@, fuel)),
        ensures
            final(self).nodes@ == old(self).nodes@,
            node_outcome(res, final(self).env(), s_eval_node(old(self).env(), ast@, fuel)),
        decreases fuel, 1nat,
    {
        let ghost av = ast@;
        let ghost f = (fuel - 1) as nat;
        match ast {
            Node::BinaryExpression { left, operator, right } => {
                self.eval_binary_expression(*left, operator, *right)
            },
            Node::UnaryExpression { operator, right } => self.eval_unary_expression(*right, operator),
            Node::Identifier { .. } => Ok(Node::EmptyNode),
            Node::AssignStmt { left, right, kind } => {
                assert(av == SNode::AssignStmt { left: Box::new((*left)@), right: Box::new((*right)@), kind: kind@ });
                self.eval_assign(left, right, kind, Ghost(fuel))
            },
            Node::Call { name, arguments, .. } => {
                self.eval_call(name, arguments, Ghost(f))?;
                Ok(Node::EmptyNode)
            },
            Node::Atomic { value } => Ok(Node::Atomic { value }),
            Node::MMExpression { .. } => Ok(Node::EmptyNode),
            Node::Type { .. } => Ok(Node::EmptyNode),
            Node::Conditional { condition, consequence, alternative } => {
                self.eval_conditional(condition, consequence, alternative, Ghost(f))?;
                Ok(Node::EmptyNode)
            },
            Node::ForLoop { variable, range, body } => {
                self.parse_for(variable, range, body, Ghost(f))?;
                Ok(Node::EmptyNode)
            },
            Node::EmptyNode => Ok(Node::EmptyNode),
            Node::Break {  } => Err(owned("Break")),
            Node::Array { elements } => Ok(Node::Array { elements }),
            Node::IndexExpression { left, index } => {
                let ghost lv = (*left)@;
                assert(av == SNode::IndexExpression { left: Box::new(lv), index: Box::new((*index)@) });
                match *left {
                    Node::AssignStmt { left: target, .. } => {
                        assert(lv matches SNode::AssignStmt { left: t, .. } && *t == (*target)@);
                        let name = fetch_string(*target)?;
                        let elements = self.declared(name.as_str());
                        let result = fetch_array(elements)?;
                        let i = extract_index(*index)?;
                        proof {
                            lemma_view_nodes(result@);
                        }
                        Ok(Node::Atomic { value: result[i].val() })
                    },
                    _ => Err(owned("Invalid type")),
                }
            },
            Node::FunctionDecl { name, arguments, returns: rets, body } => {
                let decl = Node::FunctionDecl { name, arguments, returns: rets, body };
                assert(decl@ == av);
                self.upsert_declaration(decl)?;
                Ok(Node::EmptyNode)
            },
            Node::Return { value } => self.replace_var(*value),
            Node::HMap { .. } => {
                let res = Node::HMap { values: Vec::new() };
                assert(res@ == SNode::HMap { values: Seq::empty() }) by {
                    crate::node::lemma_view_pairs(Seq::<(Node, Node)>::empty());
                }
                Ok(res)
            },
            Node::MethodCall { name, target, arguments, .. } => {
                self.eval_method_call(name, target, arguments)
            },
            _ => vstd::pervasive::unreached(),
        }
    }

    /// The line `print` writes for the element an index expression reads.
    fn index_line(x: &Node) -> (res: String)
        ensures
            res@ == index_print_line(x@),
    {
        if let Node::Atomic { value } = x {
            if let Value::Str(s) = value {
                return text_around("[", &str_debug_string(s), "]");
            }
            return value_debug_string(value);
        }
        node_debug_string(x)
    }

    /// Calls `print`, `reduce`, `len`, or a declared function (see [`s_eval_call`]).
    fn eval_call(&mut self, name: String, arguments: Vec<Node>, Ghost(fuel): Ghost<nat>) -> (res: Result<Node, String>)
        requires
            ends(s_eval_call(old(self).env(), name@, view_nodes(arguments@), fuel)),
        ensures
            final(self).nodes@ == old(self).nodes@,
            node_outcome(
                res,
                final(self).env(),
                s_eval_call(old(self).env(), name@, view_nodes(arguments@), fuel),
            ),
        decreases fuel, 1nat,
    {
        let ghost f = (fuel - 1) as nat;
        proof {
            lemma_view_nodes(arguments@);
        }
        if text_is(&name, "print") {
            self.eval_print(arguments, Ghost(fuel))
        } else if text_is(&name, "reduce") {
            let line = left_result_debug_string(&arguments[0].left());
            self.print_line(line);
            Ok(Node::EmptyNode)
        } else if text_is(&name, "len") {
            self.eval_len(&arguments, Ghost(fuel))
        } else {
            let func = self.declared(name.as_str());
            let node = self.eval_function(func, arguments, Ghost(f))?;
            self.upsert_declaration(clone_node(&node))?;
            Ok(node)
        }
    }
}

/// An assignment of `value` to the plain variable `name`.
fn var_assign_node(name: &String, value: Node, kind: &str) -> (res: Node)
    ensures
        res@ == var_assign(name@, value@, kind@),
{
    let res = Node::AssignStmt {
        left: Box::new(Node::Ident { name: name.clone(), kind: owned("var") }),
        right: Box::new(value),
        kind: owned(kind),
    };
    assert(res@ == var_assign(name@, value@, kind@)) by {
        reveal_with_fuel(crate::node::view_node, 3);
    }
    res
}

proof fn lemma_pass_never_fails(e: Env, body: Seq<SNode>, j: int, fuel: nat)
    ensures
        !(s_eval_pass(e, body, j, fuel) is Failed),
    decreases body.len() - j,
{
    if 0 <= j < body.len() {
        match s_eval_node(e, body[j], fuel) {
            Run::Done(e2, _) => lemma_pass_never_fails(e2, body, j + 1, fuel),
            Run::Failed(e2, m) => lemma_pass_never_fails(e2, body, j + 1, fuel),
            _ => {},
        }
    }
}

proof fn lemma_iteration_step(e: Env, var: Seq<char>, body: Seq<SNode>, i: int, end: int, fuel: nat)
    requires
        i < end,
        ends(s_eval_iterations(e, var, body, i, end, fuel)),
    ensures
        fuel > 0,
        ends(s_eval_pass(e, body, 0, (fuel - 1) as nat)),
        s_eval_pass(e, body, 0, (fuel - 1) as nat) matches Run::Done(e2, stop) && {
            let next = if stop == atomic(SValue::Bool(true)) { end + 1 } else { i + 1 };
            let e3 = with_decls(e2, e2.decls.insert(var, atomic(SValue::Int(next as i32))));
            &&& next <= i32::MAX
            &&& next >= end ==> s_eval_iterations(e, var, body, i, end, fuel) == Run::Done(e3, SNode::EmptyNode)
            &&& next < end ==> s_eval_iterations(e, var, body, i, end, fuel) == s_eval_iterations(e3, var, body, next, end, fuel)
        },
{
    lemma_pass_never_fails(e, body, 0, (fuel - 1) as nat);
}

impl Ast {
    /// Binds the parameters of a function to the arguments of a call.
    fn bind_arguments(&mut self, args: &Vec<Node>, arguments: &Vec<Node>) -> (res: Result<(), String>)
        requires
            ends(s_bind_args(old(self).env(), view_nodes(args@), view_nodes(arguments@), 0)),
        ensures
            final(self).nodes@ == old(self).nodes@,
            unit_outcome(
                res,
                final(self).env(),
                s_bind_args(old(self).env(), view_nodes(args@), view_nodes(arguments@), 0),
            ),
    {
        let ghost params = view_nodes(args@);
        let ghost argv = view_nodes(arguments@);
        let ghost goal = s_bind_args(self.env(), params, argv, 0);
        proof {
            lemma_view_nodes(args@);
            lemma_view_nodes(arguments@);
        }
        let mut i: usize = 0;
        while i < args.len()
            invariant
                i <= args.len(),
                params == view_nodes(args@),
                argv == view_nodes(arguments@),
                params.len() == args@.len(),
                argv.len() == arguments@.len(),
                forall|j: int| 0 <= j < args@.len() ==> #[trigger] params[j] == args@[j]@,
                forall|j: int| 0 <= j < arguments@.len() ==> #[trigger] argv[j] == arguments@[j]@,
                ends(goal),
                goal == s_bind_args(old(self).env(), params, argv, 0),
                s_bind_args(self.env(), params, argv, i as int) == goal,
                self.nodes@ == old(self).nodes@,
            decreases args.len() - i,
        {
            let name = fetch_string(clone_node(&args[i]))?;
            let assign = var_assign_node(&name, clone_node(&arguments[i]), "Nat");
            self.upsert_declaration(assign)?;
            i += 1;
        }
        Ok(())
    }

    /// Drops the parameters of a function after a call.
    fn unbind_arguments(&mut self, args: &Vec<Node>) -> (res: Result<(), String>)
        requires
            ends(s_unbind_args(old(self).env(), view_nodes(args@), 0)),
        ensures
            final(self).nodes@ == old(self).nodes@,
            unit_outcome(res, final(self).env(), s_unbind_args(old(self).env(), view_nodes(args@), 0)),
    {
        let ghost params = view_nodes(args@);
        let ghost goal = s_unbind_args(self.env(), params, 0);
        proof {
            lemma_view_nodes(args@);
        }
        let mut i: usize = 0;
        while i < args.len()
            invariant
                i <= args.len(),
                params == view_nodes(args@),
                params.len() == args@.len(),
                forall|j: int| 0 <= j < args@.len() ==> #[trigger] params[j] == args@[j]@,
                ends(goal),
                goal == s_unbind_args(old(self).env(), params, 0),
                s_unbind_args(self.env(), params, i as int) == goal,
                self.nodes@ == old(self).nodes@,
            decreases args.len() - i,
        {
            let name = fetch_string(clone_node(&args[i]))?;
            self.remove_declaration(name.as_str())?;
            i += 1;
        }
        Ok(())
    }

    /// Runs a function body up to its first `return` (see [`s_eval_body`]).
    fn eval_body(&mut self, body: &Vec<Node>, Ghost(fuel): Ghost<nat>) -> (res: Result<Node, String>)
        requires
            ends(s_eval_body(old(self).env(), view_nodes(body@), 0, fuel)),
        ensures
            final(self).nodes@ == old(self).nodes@,
            node_outcome(res, final(self).env(), s_eval_body(old(self).env(), view_nodes(body@), 0, fuel)),
        decreases fuel, 2nat,
    {
        let ghost bv = view_nodes(body@);
        let ghost goal = s_eval_body(self.env(), bv, 0, fuel);
        proof {
            lemma_view_nodes(body@);
        }
        let mut j: usize = 0;
        while j < body.len()
            invariant
                j <= body.len(),
                bv == view_nodes(body@),
                bv.len() == body@.len(),
                forall|k: int| 0 <= k < body@.len() ==> #[trigger] bv[k] == body@[k]@,
                ends(goal),
                goal == s_eval_body(old(self).env(), bv, 0, fuel),
                s_eval_body(self.env(), bv, j as int, fuel) == goal,
                self.nodes@ == old(self).nodes@,
            decreases body.len() - j,
        {
            if let Node::Return { value } = &body[j] {
                let ret = self.replace_var(clone_node(value))?;
                return Ok(ret);
            }
            self.eval_node(clone_node(&body[j]), Ghost(fuel))?;
            j += 1;
        }
        Ok(Node::EmptyNode)
    }

    /// Runs a declared function on the arguments of a call (see [`s_eval_function`]).
    fn eval_function(&mut self, node: Node, arguments: Vec<Node>, Ghost(fuel): Ghost<nat>) -> (res: Result<Node, String>)
        requires
            ends(s_eval_function(old(self).env(), node@, view_nodes(arguments@), fuel)),
        ensures
            final(self).nodes@ == old(self).nodes@,
            node_outcome(
                res,
                final(self).env(),
                s_eval_function(old(self).env(), node@, view_nodes(arguments@), fuel),
            ),
        decreases fuel, 0nat,
    {
        if let Node::FunctionDecl { arguments: args, body, .. } = node {
            self.bind_arguments(&args, &arguments)?;
            let ret = self.eval_body(&body, Ghost((fuel - 1) as nat))?;
            self.unbind_arguments(&args)?;
            return Ok(ret);
        }
        Ok(Node::EmptyNode)
    }

    /// Evaluates nodes in turn, entering each result as a declaration
    /// (see [`s_eval_block_upsert`]).
    fn eval_block_upsert(&mut self, nodes: &Vec<Node>, Ghost(fuel): Ghost<nat>) -> (res: Result<(), String>)
        requires
            ends(s_eval_block_upsert(old(self).env(), view_nodes(nodes@), 0, fuel)),
        ensures
            final(self).nodes@ == old(self).nodes@,
            unit_outcome(res, final(self).env(), s_eval_block_upsert(old(self).env(), view_nodes(nodes@), 0, fuel)),
        decreases fuel, 2nat,
    {
        let ghost nv = view_nodes(nodes@);
        let ghost goal = s_eval_block_upsert(self.env(), nv, 0, fuel);
        proof {
            lemma_view_nodes(nodes@);
        }
        let mut j: usize = 0;
        while j < nodes.len()
            invariant
                j <= nodes.len(),
                nv == view_nodes(nodes@),
                nv.len() == nodes@.len(),
                forall|k: int| 0 <= k < nodes@.len() ==> #[trigger] nv[k] == nodes@[k]@,
                ends(goal),
                goal == s_eval_block_upsert(old(self).env(), nv, 0, fuel),
                s_eval_block_upsert(self.env(), nv, j as int, fuel) == goal,
                self.nodes@ == old(self).nodes@,
            decreases nodes.len() - j,
        {
            let res = self.eval_node(clone_node(&nodes[j]), Ghost(fuel))?;
            self.upsert_declaration(res)?;
            j += 1;
        }
        Ok(())
    }

    /// Evaluates nodes in turn (see [`s_eval_block`]).
    fn eval_block(&mut self, nodes: &Vec<Node>, Ghost(fuel): Ghost<nat>) -> (res: Result<(), String>)
        requires
            ends(s_eval_block(old(self).env(), view_nodes(nodes@), 0, fuel)),
        ensures
            final(self).nodes@ == old(self).nodes@,
            unit_outcome(res, final(self).env(), s_eval_block(old(self).env(), view_nodes(nodes@), 0, fuel)),
        decreases fuel, 2nat,
    {
        let ghost nv = view_nodes(nodes@);
        let ghost goal = s_eval_block(self.env(), nv, 0, fuel);
        proof {
            lemma_view_nodes(nodes@);
        }
        let mut j: usize = 0;
        while j < nodes.len()
            invariant
                j <= nodes.len(),
                nv == view_nodes(nodes@),
                nv.len() == nodes@.len(),
                forall|k: int| 0 <= k < nodes@.len() ==> #[trigger] nv[k] == nodes@[k]@,
                ends(goal),
                goal == s_eval_block(old(self).env(), nv, 0, fuel),
                s_eval_block(self.env(), nv, j as int, fuel) == goal,
                self.nodes@ == old(self).nodes@,
            decreases nodes.len() - j,
        {
            self.eval_node(clone_node(&nodes[j]), Ghost(fuel))?;
            j += 1;
        }
        Ok(())
    }
}

impl Ast {
    /// Takes the branch a condition selects (see [`s_eval_conditional`]).
    fn eval_conditional(
        &mut self,
        condition: Box<Node>,
        consequence: Vec<Node>,
        alternative: Vec<Node>,
        Ghost(fuel): Ghost<nat>,
    ) -> (res: Result<(), String>)
        requires
            ends(
                s_eval_conditional(
                    old(self).env(),
                    (*condition)@,
                    view_nodes(consequence@),
                    view_nodes(alternative@),
                    fuel,
                ),
            ),
        ensures
            final(self).nodes@ == old(self).nodes@,
            unit_outcome(
                res,
                final(self).env(),
                s_eval_conditional(
                    old(self).env(),
                    (*condition)@,
                    view_nodes(consequence@),
                    view_nodes(alternative@),
                    fuel,
                ),
            ),
        decreases fuel, 0nat,
    {
        let ghost f = (fuel - 1) as nat;
        match *condition {
            Node::BinaryExpression { left, operator, right } => {
                match operator {
                    OperatorKind::IsEqual => {
                        let pre_left = left.left()?;
                        let replaced_left = self.replace_var(*pre_left)?;
                        let pre_right = right.left()?;
                        let replaced_right = self.replace_var(*pre_right)?;
                        let best = compare_value(&replaced_left.val(), &replaced_right.val());
                        if best {
                            self.eval_block_upsert(&consequence, Ghost(f))?;
                        } else {
                            self.eval_block(&alternative, Ghost(f))?;
                        }
                    },
                    OperatorKind::Or => {
                        let sub_left = left.left()?;
                        let sub_right = left.right()?;
                        let replaced_sub_left = self.replace_var(*sub_left)?;
                        let replaced_sub_right = self.replace_var(clone_node(sub_right))?;
                        let left_truth = compare_value(
                            &replaced_sub_left.val(),
                            &replaced_sub_right.val(),
                        );
                        let sub_right_left = right.left()?;
                        let sub_right_right = right.right()?;
                        let replaced_sub_right_left = self.replace_var(*sub_right_left)?;
                        let replaced_sub_right_right = self.replace_var(clone_node(sub_right_right))?;
                        let right_truth = compare_value(
                            &replaced_sub_right_left.val(),
                            &replaced_sub_right_right.val(),
                        );
                        if left_truth || right_truth {
                            self.eval_block_upsert(&consequence, Ghost(f))?;
                        } else {
                            self.eval_block(&alternative, Ghost(f))?;
                        }
                    },
                    OperatorKind::LessThan | OperatorKind::GreaterThan => {
                        let replaced_left = self.replace_var(*left)?;
                        match replaced_left.val() {
                            Value::Int(_) => {
                                match right.val() {
                                    Value::Int(_) => {
                                        self.eval_block_upsert(&consequence, Ghost(f))?;
                                    },
                                    _ => {
                                        return Err(owned("Invalid types"));
                                    },
                                }
                            },
                            _ => {
                                return Err(owned("Invalid types"));
                            },
                        }
                    },
                    _ => {},
                }
            },
            Node::Atomic { value } => {
                if value == Value::Bool(true) {
                    self.eval_block_upsert(&consequence, Ghost(f))?;
                }
            },
            _ => {},
        }
        Ok(())
    }

    /// One pass over the body of a `for` loop; errors other than `Break` are
    /// passed over. Tells whether a `break` ended the pass (see [`s_eval_pass`]).
    fn eval_pass(&mut self, body: &Vec<Node>, Ghost(fuel): Ghost<nat>) -> (stop: bool)
        requires
            ends(s_eval_pass(old(self).env(), view_nodes(body@), 0, fuel)),
        ensures
            final(self).nodes@ == old(self).nodes@,
            s_eval_pass(old(self).env(), view_nodes(body@), 0, fuel) == Run::Done(
                final(self).env(),
                atomic(SValue::Bool(stop)),
            ),
        decreases fuel, 2nat,
    {
        let ghost bv = view_nodes(body@);
        let ghost goal = s_eval_pass(self.env(), bv, 0, fuel);
        proof {
            lemma_view_nodes(body@);
        }
        let mut j: usize = 0;
        while j < body.len()
            invariant
                j <= body.len(),
                bv == view_nodes(body@),
                bv.len() == body@.len(),
                forall|k: int| 0 <= k < body@.len() ==> #[trigger] bv[k] == body@[k]@,
                ends(goal),
                goal == s_eval_pass(old(self).env(), bv, 0, fuel),
                s_eval_pass(self.env(), bv, j as int, fuel) == goal,
                self.nodes@ == old(self).nodes@,
            decreases body.len() - j,
        {
            let x = self.eval_node(clone_node(&body[j]), Ghost(fuel));
            match x {
                Ok(_) => {},
                Err(e) => {
                    if text_is(&e, "Break") {
                        return true;
                    }
                },
            }
            j += 1;
        }
        false
    }

    /// Runs a `for` loop (see [`s_eval_for`]).
    fn parse_for(
        &mut self,
        variable: String,
        range: (Box<Node>, Box<Node>),
        body: Vec<Node>,
        Ghost(fuel): Ghost<nat>,
    ) -> (res: Result<(), String>)
        requires
            ends(
                s_eval_for(
                    old(self).env(),
                    variable@,
                    (*range.0)@,
                    (*range.1)@,
                    view_nodes(body@),
                    fuel,
                ),
            ),
        ensures
            final(self).nodes@ == old(self).nodes@,
            unit_outcome(
                res,
                final(self).env(),
                s_eval_for(
                    old(self).env(),
                    variable@,
                    (*range.0)@,
                    (*range.1)@,
                    view_nodes(body@),
                    fuel,
                ),
            ),
        decreases fuel, 0nat,
    {
        let ghost bv = view_nodes(body@);
        let start_node = self.replace_var(*range.0)?;
        let end_node = self.replace_var(*range.1)?;
        let start = fetch_integer(start_node)?;
        let replaced_end = self.replace_var(end_node)?;
        let end = fetch_integer(replaced_end)?;
        let first = var_assign_node(&variable, Node::Atomic { value: Value::Int(start) }, "Nat");
        self.upsert_declaration(first)?;
        let ghost goal = s_eval_iterations(self.env(), variable@, bv, start as int, end as int, (fuel - 1) as nat);
        let mut i = start;
        while i < end
            invariant
                fuel > 0,
                bv == view_nodes(body@),
                ends(goal),
                s_eval_iterations(self.env(), variable@, bv, i as int, end as int, (fuel - 1) as nat) == goal,
                self.nodes@ == old(self).nodes@,
            decreases end - i + 1,
        {
            proof {
                lemma_iteration_step(self.env(), variable@, bv, i as int, end as int, (fuel - 1) as nat);
            }
            let stop = self.eval_pass(&body, Ghost((fuel - 2) as nat));
            if stop {
                i = end;
            }
            i += 1;
            let step = var_assign_node(&variable, Node::Atomic { value: Value::Int(i) }, "Nat");
            self.upsert_declaration(step)?;
        }
        self.remove_declaration(variable.as_str())?;
        Ok(())
    }
}

/// Whether evaluating the nodes of `a` in turn ends, with some bound on the
/// nesting of evaluation.
pub open spec fn terminates(a: &Ast) -> bool {
    exists|f: nat| ends(s_eval_block(a.env(), view_nodes(a.nodes@), 0, f))
}

/// The outcome of evaluating the nodes of `a` in turn.
pub open spec fn program_run(a: &Ast) -> Run<SNode> {
    s_eval_block(
        a.env(),
        view_nodes(a.nodes@),
        0,
        choose|f: nat| ends(s_eval_block(a.env(), view_nodes(a.nodes@), 0, f)),
    )
}

impl Ast {
    /// Evaluates the program's nodes in turn, stopping at the first error.
    /// Only programs whose evaluation ends (without a panic) are accepted.
    pub fn eval(&mut self) -> (res: Result<(), String>)
        requires
            terminates(old(self)),
        ensures
            final(self).nodes@ == old(self).nodes@,
            unit_outcome(res, final(self).env(), program_run(old(self))),
    {
        let ghost f = choose|f: nat| ends(s_eval_block(self.env(), view_nodes(self.nodes@), 0, f));
        let nodes = clone_nodes(&self.nodes);
        self.eval_block(&nodes, Ghost(f))
    }
}

/// The outcome of a program does not depend on how much fuel is given: for any
/// fuel with which evaluating its nodes ends, the outcome is `program_run`.
pub proof fn law_program_run_any_fuel(a: &Ast, f: nat)
    requires
        ends(s_eval_block(a.env(), view_nodes(a.nodes@), 0, f)),
    ensures
        terminates(a),
        program_run(a) == s_eval_block(a.env(), view_nodes(a.nodes@), 0, f),
{
    let e = a.env();
    let nodes = view_nodes(a.nodes@);
    let c = choose|g: nat| ends(s_eval_block(e, nodes, 0, g));
    assert(ends(s_eval_block(e, nodes, 0, c)));
    if c <= f {
        lemma_block_fuel(e, nodes, 0, c, f);
    } else {
        lemma_block_fuel(e, nodes, 0, f, c);
    }
}

impl Ast {
    /// Evaluates an assignment: to an element of an array, or to a variable
    /// (see [`s_eval_node`]).
    fn eval_assign(&mut self, left: Box<Node>, right: Box<Node>, kind: String, Ghost(fuel): Ghost<nat>) -> (res: Result<Node, String>)
        requires
            ends(s_eval_node(old(self).env(), SNode::AssignStmt { left: Box::new((*left)@), right: Box::new((*right)@), kind: kind@ }, fuel)),
        ensures
            final(self).nodes@ == old(self).nodes@,
            node_outcome(res, final(self).env(), s_eval_node(old(self).env(), SNode::AssignStmt { left: Box::new((*left)@), right: Box::new((*right)@), kind: kind@ }, fuel)),
        decreases fuel, 0nat,
    {
        let ghost f = (fuel - 1) as nat;
        let ghost lv = (*left)@;
        let ghost rv = (*right)@;
        match *left {
            Node::IndexExpression { left: target, index } => {
                assert(lv == SNode::IndexExpression {
                    left: Box::new((*target)@),
                    index: Box::new((*index)@),
                });
                let replaced = self.replace_var(*index)?;
                let res = self.eval_node(replaced, Ghost(f))?;
                let ghost tv = (*target)@;
                let assign = Node::AssignStmt {
                    left: Box::new(Node::IndexExpression { left: target, index: Box::new(clone_node(&res)) }),
                    right,
                    kind,
                };
                assert(assign@ == SNode::AssignStmt {
                    left: Box::new(SNode::IndexExpression { left: Box::new(tv), index: Box::new(res@) }),
                    right: Box::new(rv),
                    kind: kind@,
                }) by {
                    reveal_with_fuel(crate::node::view_node, 3);
                }
                self.upsert_declaration(assign)?;
                Ok(res)
            },
            other_left => {
                let res = match *right {
                    Node::Call { name, arguments, .. } => {
                        self.eval_call(name, arguments, Ghost(f))?
                    },
                    other_right => {
                        let replaced = self.replace_var(other_right)?;
                        self.eval_node(replaced, Ghost(f))?
                    },
                };
                let assign = Node::AssignStmt {
                    left: Box::new(other_left),
                    right: Box::new(clone_node(&res)),
                    kind,
                };
                assert(assign@ == SNode::AssignStmt {
                    left: Box::new(lv),
                    right: Box::new(res@),
                    kind: kind@,
                });
                self.upsert_declaration(assign)?;
                Ok(res)
            },
        }
    }
}

impl Ast {
    /// Calls `print` (see [`s_eval_call`]).
    fn eval_print(&mut self, arguments: Vec<Node>, Ghost(fuel): Ghost<nat>) -> (res: Result<Node, String>)
        requires
            ends(s_eval_call(old(self).env(), "print"@, view_nodes(arguments@), fuel)),
        ensures
            final(self).nodes@ == old(self).nodes@,
            node_outcome(res, final(self).env(), s_eval_call(old(self).env(), "print"@, view_nodes(arguments@), fuel)),
        decreases fuel, 0nat,
    {
        let ghost f = (fuel - 1) as nat;
        proof {
            lemma_view_nodes(arguments@);
        }
        let temp2 = *arguments[0].left()?;
        match temp2 {
            Node::Call { name, arguments, .. } => {
                let x = self.eval_call(name, arguments, Ghost(f))?;
                let line = value_debug_string(&x.val());
                self.print_line(line);
                Ok(Node::EmptyNode)
            },
            Node::IndexExpression { left, index } => {
                let x = self.eval_array(Node::IndexExpression { left, index })?;
                let line = Self::index_line(&x);
                self.print_line(line);
                Ok(Node::EmptyNode)
            },
            other => {
                let v = self.replace_var(other).expect("unexpected failure");
                let line = node_debug_string(&v);
                self.print_line(line);
                Ok(Node::EmptyNode)
            },
        }
    }
}

impl Ast {
    /// Calls `len` (see [`s_eval_call`]).
    fn eval_len(&self, arguments: &Vec<Node>, Ghost(fuel): Ghost<nat>) -> (res: Result<Node, String>)
        requires
            fuel > 0,
            ends(s_eval_call(self.env(), "len"@, view_nodes(arguments@), fuel)),
        ensures
            node_outcome(res, self.env(), s_eval_call(self.env(), "len"@, view_nodes(arguments@), fuel)),
    {
        proof {
            lemma_view_nodes(arguments@);
            reveal_strlit("len");
            reveal_strlit("print");
            reveal_strlit("reduce");
            assert("len"@.len() == 3 && "print"@.len() == 5 && "reduce"@.len() == 6);
        }
        let ghost e = self.env();
        let ghost args = view_nodes(arguments@);
        assert(args[0] == arguments@[0]@);
        let name = fetch_string(clone_node(&arguments[0]))?;
        assert(s_fetch_string(args[0]) == Ok::<Seq<char>, Seq<char>>(name@));
        let n = self.declared(name.as_str());
        match n {
            Node::Array { .. } => {
                let elements = fetch_array(n)?;
                proof {
                    lemma_view_nodes(elements@);
                }
                Ok(Node::Atomic { value: Value::Int(elements.len() as i32) })
            },
            Node::Atomic { .. } => {
                let s = fetch_string(n)?;
                let text = s.as_str();
                let len = text.len();
                assert(len == vstd::utf8::encode_utf8(s@).len() as usize);
                Ok(Node::Atomic { value: Value::Int(len as i32) })
            },
            _ => Err(text_with("Unknown type ", &owned(n.node_type()))),
        }
    }
}

/// `n` spaces.
pub open spec fn spaces(n: nat) -> Seq<char> {
    Seq::new(n, |i: int| ' ')
}

/// How deep the printout of a node nests.
pub open spec fn print_depth(n: SNode) -> nat
    decreases n,
{
    match n {
        SNode::AssignStmt { left, right, .. } => {
            let l = print_depth(*left);
            let r = print_depth(*right);
            1 + if l >= r {
                l
            } else {
                r
            }
        },
        SNode::Ident { .. } => 1,
        _ => 0,
    }
}

/// The lines printing a node gives: an assignment prints its two sides
/// indented, a typed identifier prints as a plain identifier indented, and any
/// other node prints its debug form.
pub open spec fn print_lines(n: SNode, indent: nat) -> Seq<Seq<char>>
    decreases n,
{
    match n {
        SNode::AssignStmt { left, right, .. } => print_lines(*left, indent + 2) + print_lines(
            *right,
            indent + 2,
        ),
        SNode::Ident { name, .. } => seq![spaces(indent + 2) + debug_text(SNode::Identifier { value: name })],
        _ => seq![spaces(indent) + debug_text(n)],
    }
}

/// The lines printing a list of nodes gives.
pub open spec fn print_all(nodes: Seq<SNode>) -> Seq<Seq<char>>
    decreases nodes.len(),
{
    if nodes.len() == 0 {
        Seq::empty()
    } else {
        print_all(nodes.drop_last()) + print_lines(nodes.last(), 0)
    }
}

fn padded(indent: usize, text: &String) -> (res: String)
    ensures
        res@ == spaces(indent as nat) + text@,
{
    let mut res = String::new();
    let mut i: usize = 0;
    while i < indent
        invariant
            i <= indent,
            res@ == spaces(i as nat),
        decreases indent - i,
    {
        crate::text::string_push(&mut res, ' ');
        i += 1;
        assert(res@ =~= spaces(i as nat));
    }
    push_all(&mut res, text.as_str());
    res
}

fn print_with_indent(node: Node, indent: usize, lines: &mut Vec<String>)
    requires
        indent + 2 * print_depth(node@) <= usize::MAX,
    ensures
        lines_view(final(lines)@) == lines_view(old(lines)@) + print_lines(node@, indent as nat),
    decreases node,
{
    let ghost before = lines_view(lines@);
    let ghost nv = node@;
    match node {
        Node::AssignStmt { left, right, .. } => {
            assert(nv matches SNode::AssignStmt { left: l, right: r, .. } && *l == (*left)@ && *r
                == (*right)@);
            print_with_indent(*left, indent + 2, lines);
            let ghost mid = lines_view(lines@);
            print_with_indent(*right, indent + 2, lines);
            assert(lines_view(lines@) =~= before + print_lines(nv, indent as nat));
        },
        Node::Ident { name, .. } => {
            let ident = Node::Identifier { value: name };
            let line = padded(indent + 2, &node_debug_string(&ident));
            let ghost b = lines@;
            lines.push(line);
            assert(lines_view(lines@) =~= lines_view(b).push(line@));
            assert(lines_view(lines@) =~= before + print_lines(nv, indent as nat));
        },
        _ => {
            let line = padded(indent, &node_debug_string(&node));
            let ghost b = lines@;
            lines.push(line);
            assert(lines_view(lines@) =~= lines_view(b).push(line@));
            assert(lines_view(lines@) =~= before + print_lines(nv, indent as nat));
        },
    }
}

impl Ast {
    /// The lines printing the program gives, one node after the other.
    pub fn print(&self) -> (res: Vec<String>)
        requires
            forall|i: int| 0 <= i < self.nodes@.len() ==> 2 * print_depth(#[trigger] self.nodes@[i]@) <= usize::MAX,
        ensures
            lines_view(res@) == print_all(view_nodes(self.nodes@)),
    {
        let mut lines: Vec<String> = Vec::new();
        let mut i: usize = 0;
        proof {
            lemma_view_nodes(self.nodes@);
        }
        while i < self.nodes.len()
            invariant
                i <= self.nodes.len(),
                forall|k: int| 0 <= k < self.nodes@.len() ==> 2 * print_depth(#[trigger] self.nodes@[k]@) <= usize::MAX,
                lines_view(lines@) == print_all(view_nodes(self.nodes@.subrange(0, i as int))),
            decreases self.nodes.len() - i,
        {
            let ghost sub = self.nodes@.subrange(0, i as int + 1);
            proof {
                assert(sub.drop_last() =~= self.nodes@.subrange(0, i as int));
                crate::node::lemma_view_nodes_push(self.nodes@.subrange(0, i as int), self.nodes@[i as int]);
                assert(self.nodes@.subrange(0, i as int).push(self.nodes@[i as int]) =~= sub);
                let vs = view_nodes(sub);
                assert(vs.drop_last() =~= view_nodes(self.nodes@.subrange(0, i as int)));
                assert(vs.last() == self.nodes@[i as int]@);
            }
            print_with_indent(clone_node(&self.nodes[i]), 0, &mut lines);
            i += 1;
        }
        assert(self.nodes@.subrange(0, i as int) =~= self.nodes@);
        lines
    }
}

} // verus!
