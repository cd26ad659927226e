//! The parser of the language.
use vstd::prelude::*;
use crate::lexer::{Token, SToken, TokenKind, stok, binary_operator_kind, tokens_view};
use crate::node::{Node, SNode, OperatorKind, view_nodes, lemma_view_nodes_push};
use crate::value::{Value, SValue, value_from_text};
use crate::text::{parse_i32_spec, parse_i32, owned, text_is, push_all};
use crate::lang_lexer::{LangLexer, LangLexOutcome, lang_lex};
use crate::ast::Ast;
use crate::internal_types::{fetch_integer, fetch_binary, text_with};
use crate::internal_types::{s_fetch_integer, s_fetch_binary};

verus! {

/// The operator a token kind stands for, where the two enums share the name.
pub open spec fn operator_of_kind(k: TokenKind) -> Option<OperatorKind> {
    match k {
        TokenKind::ForAll => Some(OperatorKind::ForAll),
        TokenKind::Exists => Some(OperatorKind::Exists),
        TokenKind::Implies => Some(OperatorKind::Implies),
        TokenKind::Disjunction => Some(OperatorKind::Disjunction),
        TokenKind::Conjunction => Some(OperatorKind::Conjunction),
        TokenKind::Equality => Some(OperatorKind::Equality),
        TokenKind::ElementOf => Some(OperatorKind::ElementOf),
        TokenKind::Identifier => Some(OperatorKind::Identifier),
        TokenKind::Add => Some(OperatorKind::Add),
        TokenKind::Subtract => Some(OperatorKind::Subtract),
        TokenKind::Multiply => Some(OperatorKind::Multiply),
        TokenKind::Divide => Some(OperatorKind::Divide),
        TokenKind::Modulo => Some(OperatorKind::Modulo),
        TokenKind::BitwiseAnd => Some(OperatorKind::BitwiseAnd),
        TokenKind::BitwiseOr => Some(OperatorKind::BitwiseOr),
        TokenKind::BitwiseXor => Some(OperatorKind::BitwiseXor),
        TokenKind::ShiftLeft => Some(OperatorKind::ShiftLeft),
        TokenKind::ShiftRight => Some(OperatorKind::ShiftRight),
        TokenKind::Negation => Some(OperatorKind::Negation),
        TokenKind::IsEqual => Some(OperatorKind::IsEqual),
        TokenKind::Or => Some(OperatorKind::Or),
        TokenKind::And => Some(OperatorKind::And),
        TokenKind::LessThan => Some(OperatorKind::LessThan),
        TokenKind::GreaterThan => Some(OperatorKind::GreaterThan),
        TokenKind::Biconditional => Some(OperatorKind::Biconditional),
        _ => None,
    }
}

/// The operator a token kind stands for, where the two enums share the name.
pub fn token_kind_to_operator_kind(k: TokenKind) -> (res: Option<OperatorKind>)
    ensures
        res == operator_of_kind(k),
{
    match k {
        TokenKind::ForAll => Some(OperatorKind::ForAll),
        TokenKind::Exists => Some(OperatorKind::Exists),
        TokenKind::Implies => Some(OperatorKind::Implies),
        TokenKind::Disjunction => Some(OperatorKind::Disjunction),
        TokenKind::Conjunction => Some(OperatorKind::Conjunction),
        TokenKind::Equality => Some(OperatorKind::Equality),
        TokenKind::ElementOf => Some(OperatorKind::ElementOf),
        TokenKind::Identifier => Some(OperatorKind::Identifier),
        TokenKind::Add => Some(OperatorKind::Add),
        TokenKind::Subtract => Some(OperatorKind::Subtract),
        TokenKind::Multiply => Some(OperatorKind::Multiply),
        TokenKind::Divide => Some(OperatorKind::Divide),
        TokenKind::Modulo => Some(OperatorKind::Modulo),
        TokenKind::BitwiseAnd => Some(OperatorKind::BitwiseAnd),
        TokenKind::BitwiseOr => Some(OperatorKind::BitwiseOr),
        TokenKind::BitwiseXor => Some(OperatorKind::BitwiseXor),
        TokenKind::ShiftLeft => Some(OperatorKind::ShiftLeft),
        TokenKind::ShiftRight => Some(OperatorKind::ShiftRight),
        TokenKind::Negation => Some(OperatorKind::Negation),
        TokenKind::IsEqual => Some(OperatorKind::IsEqual),
        TokenKind::Or => Some(OperatorKind::Or),
        TokenKind::And => Some(OperatorKind::And),
        TokenKind::LessThan => Some(OperatorKind::LessThan),
        TokenKind::GreaterThan => Some(OperatorKind::GreaterThan),
        TokenKind::Biconditional => Some(OperatorKind::Biconditional),
        _ => None,
    }
}

} // verus!

verus! {

/// What `{:?}` prints for a token kind: the name of its variant.
pub open spec fn kind_debug_text(k: TokenKind) -> Seq<char> {
    match k {
        TokenKind::Number => "Number"@,
        TokenKind::Operator => "Operator"@,
        TokenKind::BinaryOperator => "BinaryOperator"@,
        TokenKind::UnaryOperator => "UnaryOperator"@,
        TokenKind::LeftParenthesis => "LeftParenthesis"@,
        TokenKind::RightParenthesis => "RightParenthesis"@,
        TokenKind::Whitespace => "Whitespace"@,
        TokenKind::Identifier => "Identifier"@,
        TokenKind::End => "End"@,
        TokenKind::Pipe => "Pipe"@,
        TokenKind::Comment => "Comment"@,
        TokenKind::WFF => "WFF"@,
        TokenKind::SetVar => "SetVar"@,
        TokenKind::Implies => "Implies"@,
        TokenKind::Negation => "Negation"@,
        TokenKind::Turnstile => "Turnstile"@,
        TokenKind::And => "And"@,
        TokenKind::ForAll => "ForAll"@,
        TokenKind::Exists => "Exists"@,
        TokenKind::BoundX => "BoundX"@,
        TokenKind::Phi => "Phi"@,
        TokenKind::Psi => "Psi"@,
        TokenKind::Chi => "Chi"@,
        TokenKind::HypothesisConjunction => "HypothesisConjunction"@,
        TokenKind::HypothesisEnd => "HypothesisEnd"@,
        TokenKind::Equality => "Equality"@,
        TokenKind::ElementOf => "ElementOf"@,
        TokenKind::Biconditional => "Biconditional"@,
        TokenKind::Conjunction => "Conjunction"@,
        TokenKind::Disjunction => "Disjunction"@,
        TokenKind::Subset => "Subset"@,
        TokenKind::Equinumerosity => "Equinumerosity"@,
        TokenKind::Print => "Print"@,
        TokenKind::Word => "Word"@,
        TokenKind::String => "String"@,
        TokenKind::Semicolon => "Semicolon"@,
        TokenKind::Type => "Type"@,
        TokenKind::Let => "Let"@,
        TokenKind::Colon => "Colon"@,
        TokenKind::Nat => "Nat"@,
        TokenKind::MMExpression => "MMExpression"@,
        TokenKind::Add => "Add"@,
        TokenKind::Subtract => "Subtract"@,
        TokenKind::Multiply => "Multiply"@,
        TokenKind::Divide => "Divide"@,
        TokenKind::Modulo => "Modulo"@,
        TokenKind::BitwiseAnd => "BitwiseAnd"@,
        TokenKind::BitwiseOr => "BitwiseOr"@,
        TokenKind::BitwiseXor => "BitwiseXor"@,
        TokenKind::ShiftLeft => "ShiftLeft"@,
        TokenKind::ShiftRight => "ShiftRight"@,
        TokenKind::Or => "Or"@,
        TokenKind::LessThan => "LessThan"@,
        TokenKind::GreaterThan => "GreaterThan"@,
        TokenKind::Comma => "Comma"@,
        TokenKind::Period => "Period"@,
        TokenKind::LBracket => "LBracket"@,
        TokenKind::RBracket => "RBracket"@,
        TokenKind::LCurlyBracket => "LCurlyBracket"@,
        TokenKind::RCurlyBracket => "RCurlyBracket"@,
        TokenKind::Range => "Range"@,
        TokenKind::IsEqual => "IsEqual"@,
        TokenKind::EOF => "EOF"@,
    }
}

/// What `{:?}` prints for a token: its text, quoted and escaped, and its kind.
pub open spec fn token_debug_text(t: SToken) -> Seq<char> {
    "Token { value: "@ + crate::node::str_debug_text(t.value) + ", kind: "@ + kind_debug_text(t.kind)
        + " }"@
}

/// The name of a token kind's variant, as `{:?}` prints it.
pub(crate) fn kind_debug_string(k: TokenKind) -> (res: String)
    ensures
        res@ == kind_debug_text(k),
{
    match k {
        TokenKind::Number => owned("Number"),
        TokenKind::Operator => owned("Operator"),
        TokenKind::BinaryOperator => owned("BinaryOperator"),
        TokenKind::UnaryOperator => owned("UnaryOperator"),
        TokenKind::LeftParenthesis => owned("LeftParenthesis"),
        TokenKind::RightParenthesis => owned("RightParenthesis"),
        TokenKind::Whitespace => owned("Whitespace"),
        TokenKind::Identifier => owned("Identifier"),
        TokenKind::End => owned("End"),
        TokenKind::Pipe => owned("Pipe"),
        TokenKind::Comment => owned("Comment"),
        TokenKind::WFF => owned("WFF"),
        TokenKind::SetVar => owned("SetVar"),
        TokenKind::Implies => owned("Implies"),
        TokenKind::Negation => owned("Negation"),
        TokenKind::Turnstile => owned("Turnstile"),
        TokenKind::And => owned("And"),
        TokenKind::ForAll => owned("ForAll"),
        TokenKind::Exists => owned("Exists"),
        TokenKind::BoundX => owned("BoundX"),
        TokenKind::Phi => owned("Phi"),
        TokenKind::Psi => owned("Psi"),
        TokenKind::Chi => owned("Chi"),
        TokenKind::HypothesisConjunction => owned("HypothesisConjunction"),
        TokenKind::HypothesisEnd => owned("HypothesisEnd"),
        TokenKind::Equality => owned("Equality"),
        TokenKind::ElementOf => owned("ElementOf"),
        TokenKind::Biconditional => owned("Biconditional"),
        TokenKind::Conjunction => owned("Conjunction"),
        TokenKind::Disjunction => owned("Disjunction"),
        TokenKind::Subset => owned("Subset"),
        TokenKind::Equinumerosity => owned("Equinumerosity"),
        TokenKind::Print => owned("Print"),
        TokenKind::Word => owned("Word"),
        TokenKind::String => owned("String"),
        TokenKind::Semicolon => owned("Semicolon"),
        TokenKind::Type => owned("Type"),
        TokenKind::Let => owned("Let"),
        TokenKind::Colon => owned("Colon"),
        TokenKind::Nat => owned("Nat"),
        TokenKind::MMExpression => owned("MMExpression"),
        TokenKind::Add => owned("Add"),
        TokenKind::Subtract => owned("Subtract"),
        TokenKind::Multiply => owned("Multiply"),
        TokenKind::Divide => owned("Divide"),
        TokenKind::Modulo => owned("Modulo"),
        TokenKind::BitwiseAnd => owned("BitwiseAnd"),
        TokenKind::BitwiseOr => owned("BitwiseOr"),
        TokenKind::BitwiseXor => owned("BitwiseXor"),
        TokenKind::ShiftLeft => owned("ShiftLeft"),
        TokenKind::ShiftRight => owned("ShiftRight"),
        TokenKind::Or => owned("Or"),
        TokenKind::LessThan => owned("LessThan"),
        TokenKind::GreaterThan => owned("GreaterThan"),
        TokenKind::Comma => owned("Comma"),
        TokenKind::Period => owned("Period"),
        TokenKind::LBracket => owned("LBracket"),
        TokenKind::RBracket => owned("RBracket"),
        TokenKind::LCurlyBracket => owned("LCurlyBracket"),
        TokenKind::RCurlyBracket => owned("RCurlyBracket"),
        TokenKind::Range => owned("Range"),
        TokenKind::IsEqual => owned("IsEqual"),
        TokenKind::EOF => owned("EOF"),
    }
}

/// What `{:?}` prints for a token.
pub(crate) fn token_debug_string(t: &Token) -> (res: String)
    ensures
        res@ == token_debug_text(t@),
{
    let mut s = owned("Token { value: ");
    let v = crate::node::str_debug_string(&t.value);
    push_all(&mut s, v.as_str());
    push_all(&mut s, ", kind: ");
    let k = kind_debug_string(t.kind);
    push_all(&mut s, k.as_str());
    push_all(&mut s, " }");
    s
}

/// The outcome of a parsing step on the model: a value and the position after
/// it, an error and the position where it arose, a panic, or a parse that does
/// not end within the given fuel.
pub enum LP<T> {
    Got(T, int),
    Fail(Seq<char>, int),
    Panic,
    Stall,
}

/// The token at `p`; past the end, an end-of-file token with empty text.
pub open spec fn lcur(ts: Seq<SToken>, p: int) -> SToken {
    if 0 <= p < ts.len() {
        ts[p]
    } else {
        stok(Seq::empty(), TokenKind::EOF)
    }
}

/// Whether a position can be stepped without overflow.
pub open spec fn adv_ok(p: int) -> bool {
    p + 1 <= usize::MAX
}

/// Consuming a token of kind `k` at `p`; reading past the tokens panics.
pub open spec fn lp_consume(ts: Seq<SToken>, p: int, k: TokenKind) -> LP<()> {
    if p < 0 || p >= ts.len() {
        LP::Panic
    } else if ts[p].kind == k {
        LP::Got((), p + 1)
    } else {
        LP::Fail("Expected "@ + kind_debug_text(k) + " but found "@ + kind_debug_text(ts[p].kind), p)
    }
}

/// A typed identifier of kind `var`.
pub open spec fn var_ident(name: Seq<char>) -> SNode {
    SNode::Ident { name, kind: "var"@ }
}

/// A variable as an operand: an assignment of zero to it.
pub open spec fn var_operand(name: Seq<char>) -> SNode {
    SNode::AssignStmt {
        left: Box::new(var_ident(name)),
        right: Box::new(SNode::Atomic { value: SValue::Int(0) }),
        kind: "Nat"@,
    }
}

/// A binary node whose operator is given by a token kind.
pub open spec fn lbin(l: SNode, k: TokenKind, r: SNode) -> Option<SNode> {
    match operator_of_kind(k) {
        Some(op) => Some(SNode::BinaryExpression { left: Box::new(l), operator: op, right: Box::new(r) }),
        None => None,
    }
}

/// The text of an embedded formula, from `p` up to the next semicolon.
pub open spec fn lp_scan_mm(ts: Seq<SToken>, p: int, acc: Seq<char>) -> LP<SNode>
    decreases ts.len() - p,
{
    if p >= ts.len() || p < 0 {
        LP::Stall
    } else if ts[p].kind == TokenKind::Semicolon {
        LP::Got(SNode::MMExpression { expression: acc }, p)
    } else if !adv_ok(p) {
        LP::Panic
    } else {
        lp_scan_mm(ts, p + 1, acc + ts[p].value)
    }
}

/// Parsing a number token.
pub open spec fn lp_number(ts: Seq<SToken>, p: int) -> LP<SNode> {
    if !adv_ok(p) {
        LP::Panic
    } else {
        LP::Got(SNode::Atomic { value: value_from_text(lcur(ts, p).value) }, p + 1)
    }
}

/// Parsing an embedded formula: its text from the opening parenthesis at `p`
/// up to the next semicolon.
pub open spec fn lp_left_paren(ts: Seq<SToken>, p: int) -> LP<SNode> {
    match lp_consume(ts, p, TokenKind::LeftParenthesis) {
        LP::Got(_, q) => lp_scan_mm(ts, q, "("@),
        LP::Fail(m, q) => LP::Fail(m, q),
        LP::Panic => LP::Panic,
        LP::Stall => LP::Stall,
    }
}

/// Parsing an identifier token: a variable operand.
pub open spec fn lp_identifier(ts: Seq<SToken>, p: int) -> LP<SNode> {
    if !adv_ok(p) {
        LP::Panic
    } else {
        LP::Got(var_operand(lcur(ts, p).value), p + 1)
    }
}

/// Parsing a string token.
pub open spec fn lp_string(ts: Seq<SToken>, p: int) -> LP<SNode> {
    if !adv_ok(p) {
        LP::Panic
    } else {
        LP::Got(SNode::Atomic { value: SValue::Str(lcur(ts, p).value) }, p + 1)
    }
}

/// Parsing `<>`: an empty map literal.
pub open spec fn lp_less_than(ts: Seq<SToken>, p: int) -> LP<SNode> {
    match lp_consume(ts, p, TokenKind::LessThan) {
        LP::Got(_, q) => then_consume(ts, q, TokenKind::GreaterThan, SNode::HMap { values: Seq::empty() }),
        LP::Fail(m, q) => LP::Fail(m, q),
        LP::Panic => LP::Panic,
        LP::Stall => LP::Stall,
    }
}

/// Parsing an array literal from its opening bracket at `p`.
pub open spec fn lp_left_bracket(ts: Seq<SToken>, p: int, fuel: nat) -> LP<SNode>
    decreases fuel,
{
    if fuel == 0 {
        LP::Stall
    } else {
        match lp_consume(ts, p, TokenKind::LBracket) {
            LP::Got(_, q) => match lp_elements(ts, q, Seq::empty(), (fuel - 1) as nat) {
                LP::Got(els, q2) => LP::Got(SNode::Array { elements: els }, q2),
                LP::Fail(m, q2) => LP::Fail(m, q2),
                LP::Panic => LP::Panic,
                LP::Stall => LP::Stall,
            },
            LP::Fail(m, q) => LP::Fail(m, q),
            LP::Panic => LP::Panic,
            LP::Stall => LP::Stall,
        }
    }
}

/// Parsing a negation from its `¬` at `p`.
pub open spec fn lp_negation(ts: Seq<SToken>, p: int, fuel: nat) -> LP<SNode>
    decreases fuel,
{
    if fuel == 0 {
        LP::Stall
    } else {
        match lp_consume(ts, p, TokenKind::Negation) {
            LP::Got(_, q) => match lp_node(ts, q, (fuel - 1) as nat) {
                LP::Got(n, q2) => LP::Got(
                    SNode::UnaryExpression { operator: OperatorKind::Negation, right: Box::new(n) },
                    q2,
                ),
                other => other,
            },
            LP::Fail(m, q) => LP::Fail(m, q),
            LP::Panic => LP::Panic,
            LP::Stall => LP::Stall,
        }
    }
}

/// Parsing one node: the current token's kind decides how.
pub open spec fn lp_node(ts: Seq<SToken>, p: int, fuel: nat) -> LP<SNode>
    decreases fuel,
{
    if fuel == 0 {
        LP::Stall
    } else {
        let f = (fuel - 1) as nat;
        let t = lcur(ts, p);
        if t.kind == TokenKind::Number {
            lp_number(ts, p)
        } else if t.kind == TokenKind::Word {
            lp_word(ts, p, f)
        } else if t.kind == TokenKind::LeftParenthesis {
            lp_left_paren(ts, p)
        } else if t.kind == TokenKind::Identifier {
            lp_identifier(ts, p)
        } else if t.kind == TokenKind::LBracket {
            lp_left_bracket(ts, p, f)
        } else if t.kind == TokenKind::String {
            lp_string(ts, p)
        } else if t.kind == TokenKind::Negation {
            lp_negation(ts, p, f)
        } else if t.kind == TokenKind::LessThan {
            lp_less_than(ts, p)
        } else if p + 1 >= ts.len() {
            LP::Fail("No more tokens"@, p)
        } else {
            LP::Fail("unexpected token: "@ + token_debug_text(t), p)
        }
    }
}

/// The elements of an array literal, from `p` to the closing bracket.
pub open spec fn lp_elements(ts: Seq<SToken>, p: int, acc: Seq<SNode>, fuel: nat) -> LP<Seq<SNode>>
    decreases fuel,
{
    if fuel == 0 {
        LP::Stall
    } else if lcur(ts, p).kind == TokenKind::RBracket {
        match lp_consume(ts, p, TokenKind::RBracket) {
            LP::Got(_, q) => LP::Got(acc, q),
            LP::Fail(m, q) => LP::Fail(m, q),
            LP::Panic => LP::Panic,
            LP::Stall => LP::Stall,
        }
    } else {
        let f = (fuel - 1) as nat;
        match lp_node(ts, p, f) {
            LP::Got(n, q) => if lcur(ts, q).kind == TokenKind::RBracket {
                match lp_consume(ts, q, TokenKind::RBracket) {
                    LP::Got(_, q2) => LP::Got(acc.push(n), q2),
                    LP::Fail(m, q2) => LP::Fail(m, q2),
                    LP::Panic => LP::Panic,
                    LP::Stall => LP::Stall,
                }
            } else {
                match lp_consume(ts, q, TokenKind::Comma) {
                    LP::Got(_, q2) => lp_elements(ts, q2, acc.push(n), f),
                    LP::Fail(m, q2) => LP::Fail(m, q2),
                    LP::Panic => LP::Panic,
                    LP::Stall => LP::Stall,
                }
            },
            LP::Fail(m, q) => LP::Fail(m, q),
            LP::Panic => LP::Panic,
            LP::Stall => LP::Stall,
        }
    }
}

/// The arguments of a call, from `p` up to (not past) the closing parenthesis.
pub open spec fn lp_args(ts: Seq<SToken>, p: int, acc: Seq<SNode>, fuel: nat) -> LP<Seq<SNode>>
    decreases fuel,
{
    if fuel == 0 {
        LP::Stall
    } else if lcur(ts, p).kind == TokenKind::RightParenthesis {
        LP::Got(acc, p)
    } else {
        let f = (fuel - 1) as nat;
        match lp_node(ts, p, f) {
            LP::Got(n, q) => if lcur(ts, q).kind == TokenKind::RightParenthesis {
                LP::Got(acc.push(n), q)
            } else {
                match lp_consume(ts, q, TokenKind::Comma) {
                    LP::Got(_, q2) => lp_args(ts, q2, acc.push(n), f),
                    LP::Fail(m, q2) => LP::Fail(m, q2),
                    LP::Panic => LP::Panic,
                    LP::Stall => LP::Stall,
                }
            },
            LP::Fail(m, q) => LP::Fail(m, q),
            LP::Panic => LP::Panic,
            LP::Stall => LP::Stall,
        }
    }
}

/// A parenthesized argument list starting at `p`, through the closing parenthesis.
pub open spec fn lp_call_args(ts: Seq<SToken>, p: int, fuel: nat) -> LP<Seq<SNode>>
    decreases fuel,
{
    if fuel == 0 {
        LP::Stall
    } else {
    match lp_consume(ts, p, TokenKind::LeftParenthesis) {
        LP::Got(_, q) => match lp_args(ts, q, Seq::empty(), (fuel - 1) as nat) {
            LP::Got(args, q2) => match lp_consume(ts, q2, TokenKind::RightParenthesis) {
                LP::Got(_, q3) => LP::Got(args, q3),
                LP::Fail(m, q3) => LP::Fail(m, q3),
                LP::Panic => LP::Panic,
                LP::Stall => LP::Stall,
            },
            other => other,
        },
        LP::Fail(m, q) => LP::Fail(m, q),
        LP::Panic => LP::Panic,
        LP::Stall => LP::Stall,
    }
    }
}

/// Nodes up to a closing curly bracket, which is consumed.
pub open spec fn lp_block(ts: Seq<SToken>, p: int, acc: Seq<SNode>, fuel: nat) -> LP<Seq<SNode>>
    decreases fuel,
{
    if fuel == 0 {
        LP::Stall
    } else if lcur(ts, p).kind == TokenKind::RCurlyBracket {
        match lp_consume(ts, p, TokenKind::RCurlyBracket) {
            LP::Got(_, q) => LP::Got(acc, q),
            LP::Fail(m, q) => LP::Fail(m, q),
            LP::Panic => LP::Panic,
            LP::Stall => LP::Stall,
        }
    } else {
        let f = (fuel - 1) as nat;
        match lp_node(ts, p, f) {
            LP::Got(n, q) => lp_block(ts, q, acc.push(n), f),
            LP::Fail(m, q) => LP::Fail(m, q),
            LP::Panic => LP::Panic,
            LP::Stall => LP::Stall,
        }
    }
}

} // verus!

verus! {

/// Consuming `k` at `p`, then going on with `rest` at the next position.
pub open spec fn then_consume<T>(ts: Seq<SToken>, p: int, k: TokenKind, v: T) -> LP<T> {
    match lp_consume(ts, p, k) {
        LP::Got(_, q) => LP::Got(v, q),
        LP::Fail(m, q) => LP::Fail(m, q),
        LP::Panic => LP::Panic,
        LP::Stall => LP::Stall,
    }
}

/// The operators a `let` may combine two operands with.
pub open spec fn let_operator(k: TokenKind) -> bool {
    match k {
        TokenKind::Add | TokenKind::Modulo | TokenKind::Subtract | TokenKind::Multiply
        | TokenKind::Divide | TokenKind::BitwiseAnd | TokenKind::BitwiseOr | TokenKind::BitwiseXor
        | TokenKind::ShiftLeft | TokenKind::ShiftRight => true,
        _ => false,
    }
}

/// Parsing what follows a word at `p` (the word is at `p - 1`).
pub open spec fn lp_word(ts: Seq<SToken>, p: int, fuel: nat) -> LP<SNode>
    decreases fuel,
{
    if fuel == 0 {
        LP::Stall
    } else if !adv_ok(p) {
        LP::Panic
    } else {
        let f = (fuel - 1) as nat;
        let name = lcur(ts, p).value;
        let q = p + 1;
        if name == "print"@ {
            lp_print(ts, q, f)
        } else if name == "let"@ {
            lp_let(ts, q, f)
        } else if name == "if"@ {
            lp_if(ts, q, f)
        } else if name == "break"@ {
            then_consume(ts, q, TokenKind::Semicolon, SNode::Break)
        } else if name == "return"@ {
            match lp_node(ts, q, f) {
                LP::Got(v, q2) => then_consume(ts, q2, TokenKind::Semicolon, SNode::Return { value: Box::new(v) }),
                other => other,
            }
        } else if name == "true"@ {
            LP::Got(SNode::Atomic { value: SValue::Bool(true) }, q)
        } else if name == "false"@ {
            LP::Got(SNode::Atomic { value: SValue::Bool(false) }, q)
        } else if name == "bin"@ {
            lp_bin(ts, q, f)
        } else {
            lp_word_tail(ts, q, name, f)
        }
    }
}

/// `bin(value)` after the word, optionally followed by a binary connective and
/// a right operand; `p` is just after the word.
pub open spec fn lp_bin(ts: Seq<SToken>, p: int, fuel: nat) -> LP<SNode>
    decreases fuel,
{
    if fuel == 0 {
        LP::Stall
    } else {
        let f = (fuel - 1) as nat;
        let q = p;
            match lp_consume(ts, q, TokenKind::LeftParenthesis) {
                LP::Got(_, q1) => match lp_node(ts, q1, f) {
                    LP::Got(value, q2) => match lp_consume(ts, q2, TokenKind::RightParenthesis) {
                        LP::Got(_, q3) => if binary_operator_kind(lcur(ts, q3).kind) {
                            if !adv_ok(q3) {
                                LP::Panic
                            } else {
                                match lp_node(ts, q3 + 1, f) {
                                    LP::Got(right, q4) => match lbin(value, lcur(ts, q3).kind, right) {
                                        Some(n) => LP::Got(n, q4),
                                        None => LP::Panic,
                                    },
                                    other => other,
                                }
                            }
                        } else {
                            match s_fetch_integer(value) {
                                Ok(i) => LP::Got(SNode::Atomic { value: SValue::Bin(i as u32) }, q3),
                                Err(m) => LP::Fail(m, q3),
                            }
                        },
                        LP::Fail(m, q3) => LP::Fail(m, q3),
                        LP::Panic => LP::Panic,
                        LP::Stall => LP::Stall,
                    },
                    other => other,
                },
                LP::Fail(m, q1) => LP::Fail(m, q1),
                LP::Panic => LP::Panic,
                LP::Stall => LP::Stall,
            }
    }
}

/// What follows a word that is not a keyword; `p` is just after the word.
pub open spec fn lp_word_tail(ts: Seq<SToken>, p: int, name: Seq<char>, fuel: nat) -> LP<SNode>
    decreases fuel,
{
    if fuel == 0 {
        LP::Stall
    } else {
        let f = (fuel - 1) as nat;
        let q = p;
        if lcur(ts, q).kind == TokenKind::Period {
            match lp_method_call(ts, q, name, f) {
                LP::Got(res, q2) => if lcur(ts, q2).kind == TokenKind::Semicolon {
                    if !adv_ok(q2) {
                        LP::Panic
                    } else {
                        LP::Got(res, q2 + 1)
                    }
                } else {
                    LP::Got(res, q2)
                },
                other => other,
            }
        } else if lcur(ts, q).kind == TokenKind::LeftParenthesis {
            match lp_call_args(ts, q, f) {
                LP::Got(args, q2) => LP::Got(SNode::Call { name, arguments: args, returns: Seq::empty() }, q2),
                LP::Fail(m, q2) => LP::Fail(m, q2),
                LP::Panic => LP::Panic,
                LP::Stall => LP::Stall,
            }
        } else {
            let k = lcur(ts, q).kind;
            if k == TokenKind::Equality {
                match lp_consume(ts, q, TokenKind::Equality) {
                    LP::Got(_, q1) => match lp_node(ts, q1, f) {
                        LP::Got(value, q2) => then_consume(
                            ts,
                            q2,
                            TokenKind::Semicolon,
                            SNode::AssignStmt { left: Box::new(var_ident(name)), right: Box::new(value), kind: "Nat"@ },
                        ),
                        other => other,
                    },
                    LP::Fail(m, q1) => LP::Fail(m, q1),
                    LP::Panic => LP::Panic,
                    LP::Stall => LP::Stall,
                }
            } else if k == TokenKind::Add || k == TokenKind::Subtract || k == TokenKind::Multiply
                || k == TokenKind::Divide {
                if !adv_ok(q) {
                    LP::Panic
                } else {
                    match lp_node(ts, q + 1, f) {
                        LP::Got(right, q2) => match lbin(var_operand(name), k, right) {
                            Some(n) => LP::Got(n, q2),
                            None => LP::Panic,
                        },
                        other => other,
                    }
                }
            } else if k == TokenKind::LBracket {
                match lp_consume(ts, q, TokenKind::LBracket) {
                    LP::Got(_, q1) => match lp_node(ts, q1, f) {
                        LP::Got(index, q2) => match lp_consume(ts, q2, TokenKind::RBracket) {
                            LP::Got(_, q3) => if lcur(ts, q3).kind == TokenKind::LBracket {
                                match lp_consume(ts, q3, TokenKind::LBracket) {
                                    LP::Got(_, q4) => match lp_node(ts, q4, f) {
                                        LP::Got(index2, q5) => match lp_consume(ts, q5, TokenKind::RBracket) {
                                            LP::Got(_, q6) => if lcur(ts, q6).kind == TokenKind::Equality {
                                                match lp_consume(ts, q6, TokenKind::Equality) {
                                                    LP::Got(_, q7) => match lp_node(ts, q7, f) {
                                                        LP::Got(_, _) => LP::Panic,
                                                        other => other,
                                                    },
                                                    LP::Fail(m, q7) => LP::Fail(m, q7),
                                                    LP::Panic => LP::Panic,
                                                    LP::Stall => LP::Stall,
                                                }
                                            } else {
                                                LP::Got(
                                                    SNode::IndexExpression {
                                                        left: Box::new(SNode::IndexExpression {
                                                            left: Box::new(var_ident(name)),
                                                            index: Box::new(index),
                                                        }),
                                                        index: Box::new(index2),
                                                    },
                                                    q6,
                                                )
                                            },
                                            LP::Fail(m, q6) => LP::Fail(m, q6),
                                            LP::Panic => LP::Panic,
                                            LP::Stall => LP::Stall,
                                        },
                                        other => other,
                                    },
                                    LP::Fail(m, q4) => LP::Fail(m, q4),
                                    LP::Panic => LP::Panic,
                                    LP::Stall => LP::Stall,
                                }
                            } else {
                                LP::Got(
                                    SNode::IndexExpression {
                                        left: Box::new(var_operand(name)),
                                        index: Box::new(index),
                                    },
                                    q3,
                                )
                            },
                            LP::Fail(m, q3) => LP::Fail(m, q3),
                            LP::Panic => LP::Panic,
                            LP::Stall => LP::Stall,
                        },
                        other => other,
                    },
                    LP::Fail(m, q1) => LP::Fail(m, q1),
                    LP::Panic => LP::Panic,
                    LP::Stall => LP::Stall,
                }
            } else {
                LP::Got(var_ident(name), q)
            }
        }
    }
}

/// Parsing the argument of `print(..);` from `p`, just after the word.
pub open spec fn lp_print(ts: Seq<SToken>, p: int, fuel: nat) -> LP<SNode>
    decreases fuel,
{
    if fuel == 0 {
        LP::Stall
    } else {
        match lp_consume(ts, p, TokenKind::LeftParenthesis) {
            LP::Got(_, q) => match lp_node(ts, q, (fuel - 1) as nat) {
                LP::Got(input, q2) => if !adv_ok(q2) {
                    LP::Panic
                } else {
                    then_consume(
                        ts,
                        q2 + 1,
                        TokenKind::Semicolon,
                        SNode::Call { name: "print"@, arguments: seq![input], returns: Seq::empty() },
                    )
                },
                other => other,
            },
            LP::Fail(m, q) => LP::Fail(m, q),
            LP::Panic => LP::Panic,
            LP::Stall => LP::Stall,
        }
    }
}

/// Parsing `len(..);` from `p`, just after the word.
pub open spec fn lp_len(ts: Seq<SToken>, p: int, fuel: nat) -> LP<SNode>
    decreases fuel,
{
    if fuel == 0 {
        LP::Stall
    } else {
        match lp_consume(ts, p, TokenKind::LeftParenthesis) {
            LP::Got(_, q) => match lp_node(ts, q, (fuel - 1) as nat) {
                LP::Got(input, q2) => match lp_consume(ts, q2, TokenKind::RightParenthesis) {
                    LP::Got(_, q3) => then_consume(
                        ts,
                        q3,
                        TokenKind::Semicolon,
                        SNode::Call { name: "len"@, arguments: seq![input], returns: Seq::empty() },
                    ),
                    LP::Fail(m, q3) => LP::Fail(m, q3),
                    LP::Panic => LP::Panic,
                    LP::Stall => LP::Stall,
                },
                other => other,
            },
            LP::Fail(m, q) => LP::Fail(m, q),
            LP::Panic => LP::Panic,
            LP::Stall => LP::Stall,
        }
    }
}

/// Parsing `name = value` with an optional operator and right operand, from
/// `p`, just after `let`.
pub open spec fn lp_let(ts: Seq<SToken>, p: int, fuel: nat) -> LP<SNode>
    decreases fuel,
{
    if fuel == 0 {
        LP::Stall
    } else {
        let f = (fuel - 1) as nat;
        let name = lcur(ts, p).value;
        match lp_consume(ts, p, TokenKind::Word) {
            LP::Got(_, q) => match lp_consume(ts, q, TokenKind::Equality) {
                LP::Got(_, q1) => match lp_node(ts, q1, f) {
                    LP::Got(left, q2) => {
                        let k = lcur(ts, q2).kind;
                        if let_operator(k) {
                            if !adv_ok(q2) {
                                LP::Panic
                            } else {
                                match lp_node(ts, q2 + 1, f) {
                                    LP::Got(right, q3) => match lbin(left, k, right) {
                                        Some(n) => then_consume(
                                            ts,
                                            q3,
                                            TokenKind::Semicolon,
                                            SNode::AssignStmt { left: Box::new(var_ident(name)), right: Box::new(n), kind: "str"@ },
                                        ),
                                        None => LP::Panic,
                                    },
                                    other => other,
                                }
                            }
                        } else {
                            let ident = SNode::AssignStmt {
                                left: Box::new(var_ident(name)),
                                right: Box::new(left),
                                kind: "str"@,
                            };
                            if k == TokenKind::Semicolon {
                                then_consume(ts, q2, TokenKind::Semicolon, ident)
                            } else {
                                LP::Got(ident, q2)
                            }
                        }
                    },
                    other => other,
                },
                LP::Fail(m, q1) => LP::Fail(m, q1),
                LP::Panic => LP::Panic,
                LP::Stall => LP::Stall,
            },
            LP::Fail(m, q) => LP::Fail(m, q),
            LP::Panic => LP::Panic,
            LP::Stall => LP::Stall,
        }
    }
}

/// Parsing `.method(args)` on `target`, from the period at `p`.
pub open spec fn lp_method_call(ts: Seq<SToken>, p: int, target: Seq<char>, fuel: nat) -> LP<SNode>
    decreases fuel,
{
    if fuel == 0 {
        LP::Stall
    } else {
        match lp_consume(ts, p, TokenKind::Period) {
            LP::Got(_, q) => {
                let fname = lcur(ts, q).value;
                match lp_consume(ts, q, TokenKind::Word) {
                    LP::Got(_, q1) => match lp_call_args(ts, q1, (fuel - 1) as nat) {
                        LP::Got(args, q2) => LP::Got(
                            SNode::MethodCall { name: fname, target, arguments: args, returns: Seq::empty() },
                            q2,
                        ),
                        LP::Fail(m, q2) => LP::Fail(m, q2),
                        LP::Panic => LP::Panic,
                        LP::Stall => LP::Stall,
                    },
                    LP::Fail(m, q1) => LP::Fail(m, q1),
                    LP::Panic => LP::Panic,
                    LP::Stall => LP::Stall,
                }
            },
            LP::Fail(m, q) => LP::Fail(m, q),
            LP::Panic => LP::Panic,
            LP::Stall => LP::Stall,
        }
    }
}

/// Parsing `if (condition) { .. }` with an optional `else { .. }`, from `p`
/// just after `if`.
pub open spec fn lp_if(ts: Seq<SToken>, p: int, fuel: nat) -> LP<SNode>
    decreases fuel,
{
    if fuel == 0 {
        LP::Stall
    } else {
        let f = (fuel - 1) as nat;
        match lp_condition_header(ts, p, f) {
            LP::Got(condition, q) => match lp_consume(ts, q, TokenKind::LCurlyBracket) {
                LP::Got(_, q1) => match lp_block(ts, q1, Seq::empty(), f) {
                    LP::Got(consequence, q2) => if lcur(ts, q2).value != "else"@ {
                        LP::Got(
                            SNode::Conditional { condition: Box::new(condition), consequence, alternative: Seq::empty() },
                            q2,
                        )
                    } else {
                        match lp_consume(ts, q2, TokenKind::Word) {
                            LP::Got(_, q3) => match lp_consume(ts, q3, TokenKind::LCurlyBracket) {
                                LP::Got(_, q4) => match lp_block(ts, q4, Seq::empty(), f) {
                                    LP::Got(alternative, q5) => LP::Got(
                                        SNode::Conditional { condition: Box::new(condition), consequence, alternative },
                                        q5,
                                    ),
                                    LP::Fail(m, q5) => LP::Fail(m, q5),
                                    LP::Panic => LP::Panic,
                                    LP::Stall => LP::Stall,
                                },
                                LP::Fail(m, q4) => LP::Fail(m, q4),
                                LP::Panic => LP::Panic,
                                LP::Stall => LP::Stall,
                            },
                            LP::Fail(m, q3) => LP::Fail(m, q3),
                            LP::Panic => LP::Panic,
                            LP::Stall => LP::Stall,
                        }
                    },
                    LP::Fail(m, q2) => LP::Fail(m, q2),
                    LP::Panic => LP::Panic,
                    LP::Stall => LP::Stall,
                },
                LP::Fail(m, q1) => LP::Fail(m, q1),
                LP::Panic => LP::Panic,
                LP::Stall => LP::Stall,
            },
            other => other,
        }
    }
}

} // verus!

verus! {

/// Parsing a parenthesized condition from the opening parenthesis at `p`.
pub open spec fn lp_condition_header(ts: Seq<SToken>, p: int, fuel: nat) -> LP<SNode>
    decreases fuel,
{
    if fuel == 0 {
        LP::Stall
    } else {
        let f = (fuel - 1) as nat;
        match lp_consume(ts, p, TokenKind::LeftParenthesis) {
            LP::Got(_, q) => {
                let t = lcur(ts, q);
                if t.kind == TokenKind::Word {
                    lp_condition_word(ts, q, f)
                } else if t.kind == TokenKind::Number {
                    lp_condition_number(ts, q, f)
                } else {
                    LP::Fail("invalid conditional: "@ + token_debug_text(t), q)
                }
            },
            LP::Fail(m, q) => LP::Fail(m, q),
            LP::Panic => LP::Panic,
            LP::Stall => LP::Stall,
        }
    }
}

/// A condition that starts with a word at `q`.
pub open spec fn lp_condition_word(ts: Seq<SToken>, q: int, fuel: nat) -> LP<SNode>
    decreases fuel,
{
    if fuel == 0 {
        LP::Stall
    } else {
        let f = (fuel - 1) as nat;
        let t = lcur(ts, q);
                    match lp_node(ts, q, f) {
                        LP::Got(n, q1) => if lcur(ts, q1).kind == TokenKind::RightParenthesis {
                            if !adv_ok(q1) {
                                LP::Panic
                            } else {
                                LP::Got(n, q1 + 1)
                            }
                        } else if !adv_ok(q1) {
                            LP::Panic
                        } else {
                            let operator = lcur(ts, q1).kind;
                            match lp_node(ts, q1 + 1, f) {
                                LP::Got(right, q2) => if binary_operator_kind(lcur(ts, q2).kind) {
                                    let op = lcur(ts, q2).kind;
                                    if !adv_ok(q2) {
                                        LP::Panic
                                    } else {
                                        match lp_node(ts, q2 + 1, f) {
                                            LP::Got(right_left, q3) => if lcur(ts, q3).kind != TokenKind::RightParenthesis {
                                                let op_right = lcur(ts, q3).kind;
                                                if !adv_ok(q3) {
                                                    LP::Panic
                                                } else {
                                                    match lp_node(ts, q3 + 1, f) {
                                                        LP::Got(right_right, q4) => match lp_consume(ts, q4, TokenKind::RightParenthesis) {
                                                            LP::Got(_, q5) => match (lbin(n, operator, right), lbin(right_left, op_right, right_right)) {
                                                                (Some(a), Some(b)) => match lbin(a, op, b) {
                                                                    Some(c) => LP::Got(c, q5),
                                                                    None => LP::Panic,
                                                                },
                                                                _ => LP::Panic,
                                                            },
                                                            LP::Fail(m, q5) => LP::Fail(m, q5),
                                                            LP::Panic => LP::Panic,
                                                            LP::Stall => LP::Stall,
                                                        },
                                                        other => other,
                                                    }
                                                }
                                            } else {
                                                match lbin(n, operator, right) {
                                                    Some(a) => match lbin(a, op, right_left) {
                                                        Some(c) => LP::Got(c, q3),
                                                        None => LP::Panic,
                                                    },
                                                    None => LP::Panic,
                                                }
                                            },
                                            other => other,
                                        }
                                    }
                                } else {
                                    match lp_consume(ts, q2, TokenKind::RightParenthesis) {
                                        LP::Got(_, q3) => match lbin(n, operator, right) {
                                            Some(c) => LP::Got(c, q3),
                                            None => LP::Panic,
                                        },
                                        LP::Fail(m, q3) => LP::Fail(m, q3),
                                        LP::Panic => LP::Panic,
                                        LP::Stall => LP::Stall,
                                    }
                                },
                                other => other,
                            }
                        },
                        other => other,
                    }
    }
}

/// A condition that starts with a number at `q`.
pub open spec fn lp_condition_number(ts: Seq<SToken>, q: int, fuel: nat) -> LP<SNode>
    decreases fuel,
{
    if fuel == 0 {
        LP::Stall
    } else {
        let f = (fuel - 1) as nat;
        let t = lcur(ts, q);
                    if !adv_ok(q) || !adv_ok(q + 1) {
                        LP::Panic
                    } else {
                        let operator = lcur(ts, q + 1).kind;
                        match lp_condition(ts, q + 2, f) {
                            LP::Got(right, q1) => match parse_i32_spec(t.value) {
                                Some(i) => match lbin(SNode::Atomic { value: SValue::Int(i) }, operator, right) {
                                    Some(c) => LP::Got(c, q1),
                                    None => LP::Panic,
                                },
                                None => LP::Panic,
                            },
                            other => other,
                        }
                    }
    }
}

/// Parsing a comparison (or a literal `true`/`false`, or a single value
/// before the closing parenthesis), joined to further ones by `and`/`or`.
pub open spec fn lp_condition(ts: Seq<SToken>, p: int, fuel: nat) -> LP<SNode>
    decreases fuel,
{
    if fuel == 0 {
        LP::Stall
    } else {
        let f = (fuel - 1) as nat;
        let left = lcur(ts, p);
        if left.value == "true"@ {
            if !adv_ok(p) {
                LP::Panic
            } else {
                LP::Got(SNode::Atomic { value: SValue::Bool(true) }, p + 1)
            }
        } else if left.value == "false"@ {
            if !adv_ok(p) {
                LP::Panic
            } else {
                LP::Got(SNode::Atomic { value: SValue::Bool(false) }, p + 1)
            }
        } else if p + 1 >= ts.len() {
            LP::Fail("No more tokens"@, p)
        } else if ts[p + 1].kind == TokenKind::RightParenthesis {
            let q = p + 1;
            if lcur(ts, q).kind != TokenKind::Number {
                match lp_consume(ts, q, TokenKind::RightParenthesis) {
                    LP::Got(_, q1) => match parse_i32_spec(left.value) {
                        Some(i) => LP::Got(SNode::Atomic { value: SValue::Int(i) }, q1),
                        None => LP::Panic,
                    },
                    LP::Fail(m, q1) => LP::Fail(m, q1),
                    LP::Panic => LP::Panic,
                    LP::Stall => LP::Stall,
                }
            } else {
                then_consume(ts, q + 1, TokenKind::RightParenthesis, var_operand(left.value))
            }
        } else {
            let operator = lcur(ts, p + 1).kind;
            match lp_node(ts, p + 2, f) {
                LP::Got(right, q) => match lbin(var_operand(left.value), operator, right) {
                    Some(node) => {
                        let k = lcur(ts, q).kind;
                        if k != TokenKind::And && k != TokenKind::Or {
                            LP::Got(node, q)
                        } else if !adv_ok(q) {
                            LP::Panic
                        } else {
                            match lp_condition(ts, q + 1, f) {
                                LP::Got(right2, q1) => match lbin(node, k, right2) {
                                    Some(c) => LP::Got(c, q1),
                                    None => LP::Panic,
                                },
                                other => other,
                            }
                        }
                    },
                    None => LP::Panic,
                },
                other => other,
            }
        }
    }
}

/// The body of a `for` loop: nodes until the curly brackets seen after them
/// balance, starting from `count` open ones.
pub open spec fn lp_for_body(ts: Seq<SToken>, p: int, acc: Seq<SNode>, count: int, fuel: nat) -> LP<Seq<SNode>>
    decreases fuel,
{
    if count <= 0 {
        LP::Got(acc, p)
    } else if fuel == 0 {
        LP::Stall
    } else {
        let f = (fuel - 1) as nat;
        match lp_node(ts, p, f) {
            LP::Got(n, q) => {
                let k = lcur(ts, q).kind;
                let next = if k == TokenKind::LCurlyBracket {
                    count + 1
                } else if k == TokenKind::RCurlyBracket {
                    count - 1
                } else {
                    count
                };
                if next > i32::MAX {
                    LP::Panic
                } else {
                    lp_for_body(ts, q, acc.push(n), next, f)
                }
            },
            LP::Fail(m, q) => LP::Fail(m, q),
            LP::Panic => LP::Panic,
            LP::Stall => LP::Stall,
        }
    }
}

/// Parsing `var in start..end { .. }` from `p`, just after `for`.
pub open spec fn lp_for_loop(ts: Seq<SToken>, p: int, fuel: nat) -> LP<SNode>
    decreases fuel,
{
    if fuel == 0 {
        LP::Stall
    } else {
        let f = (fuel - 1) as nat;
        let variable = lcur(ts, p).value;
        match lp_consume(ts, p, TokenKind::Word) {
            LP::Got(_, q) => match lp_consume(ts, q, TokenKind::Word) {
                LP::Got(_, q1) => {
                    let start = lcur(ts, q1).value;
                    match lp_consume(ts, q1, TokenKind::Number) {
                        LP::Got(_, q2) => match lp_consume(ts, q2, TokenKind::Range) {
                            LP::Got(_, q3) => {
                                let end = lcur(ts, q3);
                                if end.kind == TokenKind::Number || end.kind == TokenKind::Word {
                                    let opened = if end.kind == TokenKind::Number {
                                        if !adv_ok(q3) {
                                            LP::Panic
                                        } else {
                                            lp_consume(ts, q3 + 1, TokenKind::LCurlyBracket)
                                        }
                                    } else {
                                        match lp_consume(ts, q3, TokenKind::Word) {
                                            LP::Got(_, q4) => lp_consume(ts, q4, TokenKind::LCurlyBracket),
                                            other => other,
                                        }
                                    };
                                    match opened {
                                        LP::Got(_, q5) => match lp_for_body(ts, q5, Seq::empty(), 1, f) {
                                            LP::Got(body, q6) => match lp_consume(ts, q6, TokenKind::RCurlyBracket) {
                                                LP::Got(_, q7) => match parse_i32_spec(start) {
                                                    Some(si) => if end.kind == TokenKind::Number {
                                                        match parse_i32_spec(end.value) {
                                                            Some(ei) => LP::Got(
                                                                SNode::ForLoop {
                                                                    variable,
                                                                    range: (
                                                                        Box::new(SNode::Atomic { value: SValue::Int(si) }),
                                                                        Box::new(SNode::Atomic { value: SValue::Int(ei) }),
                                                                    ),
                                                                    body,
                                                                },
                                                                q7,
                                                            ),
                                                            None => LP::Panic,
                                                        }
                                                    } else {
                                                        LP::Got(
                                                            SNode::ForLoop {
                                                                variable,
                                                                range: (
                                                                    Box::new(SNode::Atomic { value: SValue::Int(si) }),
                                                                    Box::new(var_ident(end.value)),
                                                                ),
                                                                body,
                                                            },
                                                            q7,
                                                        )
                                                    },
                                                    None => LP::Panic,
                                                },
                                                LP::Fail(m, q7) => LP::Fail(m, q7),
                                                LP::Panic => LP::Panic,
                                                LP::Stall => LP::Stall,
                                            },
                                            LP::Fail(m, q6) => LP::Fail(m, q6),
                                            LP::Panic => LP::Panic,
                                            LP::Stall => LP::Stall,
                                        },
                                        LP::Fail(m, q5) => LP::Fail(m, q5),
                                        LP::Panic => LP::Panic,
                                        LP::Stall => LP::Stall,
                                    }
                                } else {
                                    LP::Fail("expected number, got "@ + token_debug_text(end), q3)
                                }
                            },
                            LP::Fail(m, q3) => LP::Fail(m, q3),
                            LP::Panic => LP::Panic,
                            LP::Stall => LP::Stall,
                        },
                        LP::Fail(m, q2) => LP::Fail(m, q2),
                        LP::Panic => LP::Panic,
                        LP::Stall => LP::Stall,
                    }
                },
                LP::Fail(m, q1) => LP::Fail(m, q1),
                LP::Panic => LP::Panic,
                LP::Stall => LP::Stall,
            },
            LP::Fail(m, q) => LP::Fail(m, q),
            LP::Panic => LP::Panic,
            LP::Stall => LP::Stall,
        }
    }
}

/// The parameters of a function, up to (not past) the closing parenthesis.
pub open spec fn lp_params(ts: Seq<SToken>, p: int, acc: Seq<SNode>) -> LP<Seq<SNode>>
    decreases ts.len() - p,
{
    if lcur(ts, p).kind == TokenKind::RightParenthesis {
        LP::Got(acc, p)
    } else {
        let name = lcur(ts, p).value;
        match lp_consume(ts, p, TokenKind::Word) {
            LP::Got(_, q) => {
                let arg = var_ident(name);
                if lcur(ts, q).kind != TokenKind::RightParenthesis {
                    match lp_consume(ts, q, TokenKind::Comma) {
                        LP::Got(_, q1) => lp_params(ts, q1, acc.push(arg)),
                        LP::Fail(m, q1) => LP::Fail(m, q1),
                        LP::Panic => LP::Panic,
                        LP::Stall => LP::Stall,
                    }
                } else {
                    lp_params(ts, q, acc.push(arg))
                }
            },
            LP::Fail(m, q) => LP::Fail(m, q),
            LP::Panic => LP::Panic,
            LP::Stall => LP::Stall,
        }
    }
}

/// Parsing `fn name(params) { body }` from the word `fn` at `p`.
pub open spec fn lp_function(ts: Seq<SToken>, p: int, fuel: nat) -> LP<SNode>
    decreases fuel,
{
    if fuel == 0 {
        LP::Stall
    } else {
        let f = (fuel - 1) as nat;
        match lp_consume(ts, p, TokenKind::Word) {
            LP::Got(_, q) => {
                let name = lcur(ts, q).value;
                match lp_consume(ts, q, TokenKind::Word) {
                    LP::Got(_, q1) => match lp_consume(ts, q1, TokenKind::LeftParenthesis) {
                        LP::Got(_, q2) => match lp_params(ts, q2, Seq::empty()) {
                            LP::Got(args, q3) => match lp_consume(ts, q3, TokenKind::RightParenthesis) {
                                LP::Got(_, q4) => match lp_consume(ts, q4, TokenKind::LCurlyBracket) {
                                    LP::Got(_, q5) => match lp_block(ts, q5, Seq::empty(), f) {
                                        LP::Got(body, q6) => LP::Got(
                                            SNode::FunctionDecl {
                                                name: Box::new(SNode::Ident { name, kind: "fn"@ }),
                                                arguments: args,
                                                returns: Seq::empty(),
                                                body,
                                            },
                                            q6,
                                        ),
                                        LP::Fail(m, q6) => LP::Fail(m, q6),
                                        LP::Panic => LP::Panic,
                                        LP::Stall => LP::Stall,
                                    },
                                    LP::Fail(m, q5) => LP::Fail(m, q5),
                                    LP::Panic => LP::Panic,
                                    LP::Stall => LP::Stall,
                                },
                                LP::Fail(m, q4) => LP::Fail(m, q4),
                                LP::Panic => LP::Panic,
                                LP::Stall => LP::Stall,
                            },
                            LP::Fail(m, q3) => LP::Fail(m, q3),
                            LP::Panic => LP::Panic,
                            LP::Stall => LP::Stall,
                        },
                        LP::Fail(m, q2) => LP::Fail(m, q2),
                        LP::Panic => LP::Panic,
                        LP::Stall => LP::Stall,
                    },
                    LP::Fail(m, q1) => LP::Fail(m, q1),
                    LP::Panic => LP::Panic,
                    LP::Stall => LP::Stall,
                }
            },
            LP::Fail(m, q) => LP::Fail(m, q),
            LP::Panic => LP::Panic,
            LP::Stall => LP::Stall,
        }
    }
}

} // verus!

verus! {

/// A node parsed by a statement, as an optional node.
pub open spec fn lp_some(r: LP<SNode>) -> LP<Option<SNode>> {
    match r {
        LP::Got(n, q) => LP::Got(Some(n), q),
        LP::Fail(m, q) => LP::Fail(m, q),
        LP::Panic => LP::Panic,
        LP::Stall => LP::Stall,
    }
}

/// A statement that starts with a word that is not a keyword, at `p`: an
/// assignment, a call, an element assignment, or a method call; any other
/// word is passed over.
pub open spec fn lp_ident_statement(ts: Seq<SToken>, p: int, fuel: nat) -> LP<Option<SNode>> {
    let t = lcur(ts, p);
    let f = fuel;
        let ident = t.value;
        let q = p + 1;
        let k = lcur(ts, q).kind;
        if k == TokenKind::Equality {
            match lp_consume(ts, q, TokenKind::Equality) {
                LP::Got(_, q1) => match lp_node(ts, q1, f) {
                    LP::Got(value, q2) => lp_some(then_consume(
                            ts,
                            q2,
                            TokenKind::Semicolon,
                            SNode::AssignStmt { left: Box::new(var_ident(ident)), right: Box::new(value), kind: "Nat"@ },
                        )),
                    LP::Fail(m, q2) => LP::Fail(m, q2),
                    LP::Panic => LP::Panic,
                    LP::Stall => LP::Stall,
                },
                LP::Fail(m, q1) => LP::Fail(m, q1),
                LP::Panic => LP::Panic,
                LP::Stall => LP::Stall,
            }
        } else if k == TokenKind::LeftParenthesis {
            match lp_call_args(ts, q, f) {
                LP::Got(args, q1) => match lp_consume(ts, q1, TokenKind::Semicolon) {
                    LP::Got(_, q2) => if !adv_ok(q2) {
                        LP::Panic
                    } else {
                        LP::Got(Some(SNode::Call { name: ident, arguments: args, returns: Seq::empty() }), q2 + 1)
                    },
                    LP::Fail(m, q2) => LP::Fail(m, q2),
                    LP::Panic => LP::Panic,
                    LP::Stall => LP::Stall,
                },
                LP::Fail(m, q1) => LP::Fail(m, q1),
                LP::Panic => LP::Panic,
                LP::Stall => LP::Stall,
            }
        } else if k == TokenKind::LBracket {
            match lp_consume(ts, q, TokenKind::LBracket) {
                LP::Got(_, q1) => match lp_node(ts, q1, f) {
                    LP::Got(index, q2) => match lp_consume(ts, q2, TokenKind::RBracket) {
                        LP::Got(_, q3) => match lp_consume(ts, q3, TokenKind::Equality) {
                            LP::Got(_, q4) => match lp_node(ts, q4, f) {
                                LP::Got(value, q5) => lp_some(then_consume(
                                        ts,
                                        q5,
                                        TokenKind::Semicolon,
                                        SNode::AssignStmt {
                                            left: Box::new(SNode::IndexExpression {
                                                left: Box::new(var_ident(ident)),
                                                index: Box::new(index),
                                            }),
                                            right: Box::new(value),
                                            kind: Seq::empty(),
                                        },
                                    )),
                                LP::Fail(m, q5) => LP::Fail(m, q5),
                                LP::Panic => LP::Panic,
                                LP::Stall => LP::Stall,
                            },
                            LP::Fail(m, q4) => LP::Fail(m, q4),
                            LP::Panic => LP::Panic,
                            LP::Stall => LP::Stall,
                        },
                        LP::Fail(m, q3) => LP::Fail(m, q3),
                        LP::Panic => LP::Panic,
                        LP::Stall => LP::Stall,
                    },
                    LP::Fail(m, q2) => LP::Fail(m, q2),
                    LP::Panic => LP::Panic,
                    LP::Stall => LP::Stall,
                },
                LP::Fail(m, q1) => LP::Fail(m, q1),
                LP::Panic => LP::Panic,
                LP::Stall => LP::Stall,
            }
        } else if k == TokenKind::Period {
            match lp_method_call(ts, q, ident, f) {
                LP::Got(res, q1) => lp_some(then_consume(ts, q1, TokenKind::Semicolon, res)),
                LP::Fail(m, q1) => LP::Fail(m, q1),
                LP::Panic => LP::Panic,
                LP::Stall => LP::Stall,
            }
        } else if !adv_ok(q) {
            LP::Panic
        } else {
            LP::Got(None, q + 1)
        }
}

/// A statement that starts with a word at `p`.
pub open spec fn lp_word_statement(ts: Seq<SToken>, p: int, fuel: nat) -> LP<Option<SNode>> {
    let t = lcur(ts, p);
    let f = fuel;
    if t.value == "print"@ {
        lp_some(lp_print(ts, p + 1, f))
    } else if t.value == "let"@ {
        lp_some(lp_let(ts, p + 1, f))
    } else if t.value == "type"@ {
        let declared_type = lcur(ts, p + 1).value;
        match lp_consume(ts, p + 1, TokenKind::Word) {
            LP::Got(_, q) => lp_some(then_consume(ts, q, TokenKind::Semicolon, SNode::Type { name: declared_type })),
            LP::Fail(m, q) => LP::Fail(m, q),
            LP::Panic => LP::Panic,
            LP::Stall => LP::Stall,
        }
    } else if t.value == "if"@ {
        lp_some(lp_if(ts, p + 1, f))
    } else if t.value == "for"@ {
        lp_some(lp_for_loop(ts, p + 1, f))
    } else if t.value == "fn"@ {
        lp_some(lp_function(ts, p, f))
    } else if t.value == "bin"@ {
        match lp_consume(ts, p + 1, TokenKind::LeftParenthesis) {
            LP::Got(_, q) => match lp_node(ts, q, f) {
                LP::Got(value, q1) => match s_fetch_binary(value) {
                    Ok(b) => lp_some(then_consume(ts, q1, TokenKind::RightParenthesis, SNode::Atomic { value: SValue::Bin(b) })),
                    Err(m) => LP::Fail(m, q1),
                },
                LP::Fail(m, q1) => LP::Fail(m, q1),
                LP::Panic => LP::Panic,
                LP::Stall => LP::Stall,
            },
            LP::Fail(m, q) => LP::Fail(m, q),
            LP::Panic => LP::Panic,
            LP::Stall => LP::Stall,
        }
    } else {
        lp_ident_statement(ts, p, fuel)
    }
}

/// One statement at `p` (within the tokens): the node it adds, if any, and
/// the position the program goes on from.
pub open spec fn lp_statement(ts: Seq<SToken>, p: int, fuel: nat) -> LP<Option<SNode>> {
    let t = lcur(ts, p);
    if t.kind == TokenKind::Word {
        lp_word_statement(ts, p, fuel)
    } else if t.kind == TokenKind::Comment {
        LP::Got(None, p + 1)
    } else if t.kind == TokenKind::BitwiseAnd {
        if lcur(ts, p + 1).kind != TokenKind::BitwiseAnd {
            LP::Fail("Expected another hypothesis conjunction"@, p + 1)
        } else if !adv_ok(p + 1) {
            LP::Panic
        } else {
            LP::Got(None, p + 2)
        }
    } else if p + 1 >= ts.len() {
        LP::Fail("No more tokens"@, p)
    } else {
        LP::Fail("unexpected token: "@ + token_debug_text(t) + " while parsing"@, p)
    }
}

/// The nodes `acc` with `n` added, if there is one.
pub open spec fn push_some(acc: Seq<SNode>, n: Option<SNode>) -> Seq<SNode> {
    match n {
        Some(x) => acc.push(x),
        None => acc,
    }
}

/// Parsing the statements of a program from `p` on, after the nodes `acc`.
pub open spec fn lp_program(ts: Seq<SToken>, p: int, acc: Seq<SNode>, fuel: nat) -> LP<Seq<SNode>>
    decreases fuel,
{
    if p >= ts.len() || p < 0 {
        LP::Got(acc, p)
    } else if fuel == 0 {
        LP::Stall
    } else {
        let f = (fuel - 1) as nat;
        match lp_statement(ts, p, f) {
            LP::Got(n, q) => lp_program(ts, q, push_some(acc, n), f),
            LP::Fail(m, q) => LP::Fail(m, q),
            LP::Panic => LP::Panic,
            LP::Stall => LP::Stall,
        }
    }
}

} // verus!

verus! {

/// Whether a parse result, and the position the parser stopped at, are what
/// the model gives.
pub open spec fn lp_outcome(res: Result<Node, String>, at: int, r: LP<SNode>) -> bool {
    match r {
        LP::Got(n, q) => res matches Ok(x) && x@ == n && at == q,
        LP::Fail(m, q) => res matches Err(e) && e@ == m && at == q,
        _ => false,
    }
}

/// The same for a parsed list of nodes.
pub open spec fn lp_list_outcome(res: Result<Vec<Node>, String>, at: int, r: LP<Seq<SNode>>) -> bool {
    match r {
        LP::Got(n, q) => res matches Ok(x) && view_nodes(x@) == n && at == q,
        LP::Fail(m, q) => res matches Err(e) && e@ == m && at == q,
        _ => false,
    }
}

/// The same for a step without a value.
pub open spec fn lp_unit_outcome(res: Result<(), String>, at: int, r: LP<()>) -> bool {
    match r {
        LP::Got(_, q) => res is Ok && at == q,
        LP::Fail(m, q) => res matches Err(e) && e@ == m && at == q,
        _ => false,
    }
}

/// Whether a parse ends, with a value or an error.
pub open spec fn lp_ends<T>(r: LP<T>) -> bool {
    r is Got || r is Fail
}

/// The parser of the language: the tokens of a program, the position of the
/// current one, and the program parsed so far.
pub struct LangParser<'a> {
    pub(crate) lexer: LangLexer<'a>,
    pub(crate) tokens: Vec<Token>,
    pub(crate) position: usize,
    pub ast: Ast,
}

impl<'a> LangParser<'a> {
    /// The models of the tokens.
    pub closed spec fn toks(&self) -> Seq<SToken> {
        tokens_view(self.tokens@)
    }

    /// The position of the current token.
    pub closed spec fn pos(&self) -> int {
        self.position as int
    }

    /// The program parsed so far.
    pub closed spec fn prog(&self) -> Ast {
        self.ast
    }

    fn advance(&mut self)
        requires
            adv_ok(old(self).pos()),
        ensures
            final(self).pos() == old(self).pos() + 1,
            final(self).toks() == old(self).toks(),
            final(self).ast == old(self).ast,
    {
        self.position += 1;
    }

    fn current_token(&self) -> (res: Result<Token, String>)
        ensures
            res matches Ok(t) && t@ == lcur(self.toks(), self.pos()),
    {
        if self.position < self.tokens.len() {
            Ok(self.tokens[self.position].clone())
        } else {
            Ok(Token { kind: TokenKind::EOF, value: String::new() })
        }
    }

    fn len_bound(&self)
        ensures
            self.toks().len() <= usize::MAX,
    {
        let n = self.tokens.len();
        assert(self.toks().len() == n);
    }

    fn current_kind(&self) -> (res: TokenKind)
        ensures
            res == lcur(self.toks(), self.pos()).kind,
    {
        if self.position < self.tokens.len() {
            self.tokens[self.position].kind
        } else {
            TokenKind::EOF
        }
    }

    fn peek_token(&self) -> (res: Result<Token, String>)
        ensures
            self.pos() + 1 < self.toks().len() ==> (res matches Ok(t) && t@ == self.toks()[self.pos()
                + 1]),
            self.pos() + 1 >= self.toks().len() ==> (res matches Err(e) && e@ == "No more tokens"@),
    {
        if self.position < self.tokens.len() && self.position + 1 < self.tokens.len() {
            Ok(self.tokens[self.position + 1].clone())
        } else {
            Err(owned("No more tokens"))
        }
    }

    fn consume(&mut self, kind: TokenKind) -> (res: Result<(), String>)
        requires
            lp_ends(lp_consume(old(self).toks(), old(self).pos(), kind)),
        ensures
            final(self).toks() == old(self).toks(),
            final(self).ast == old(self).ast,
            lp_unit_outcome(res, final(self).pos(), lp_consume(old(self).toks(), old(self).pos(), kind)),
    {
        assert(self.toks().len() == self.tokens@.len());
        if self.tokens[self.position].kind == kind {
            assert(self.position < self.tokens.len());
            self.advance();
            Ok(())
        } else {
            let mut e = text_with("Expected ", &kind_debug_string(kind));
            crate::text::push_all(&mut e, " but found ");
            let found = kind_debug_string(self.tokens[self.position].kind);
            crate::text::push_all(&mut e, found.as_str());
            Err(e)
        }
    }
}

} // verus!

verus! {

fn var_ident_node(name: String) -> (res: Node)
    ensures
        res@ == var_ident(name@),
{
    Node::Ident { name, kind: owned("var") }
}

fn var_operand_node(name: String) -> (res: Node)
    ensures
        res@ == var_operand(name@),
{
    let res = Node::AssignStmt {
        left: Box::new(Node::Ident { name, kind: owned("var") }),
        right: Box::new(Node::Atomic { value: Value::Int(0) }),
        kind: owned("Nat"),
    };
    assert(res@ == var_operand(name@)) by {
        reveal_with_fuel(crate::node::view_node, 3);
    }
    res
}

fn bin_node_of(left: Node, kind: TokenKind, right: Node) -> (res: Node)
    requires
        operator_of_kind(kind) is Some,
    ensures
        lbin(left@, kind, right@) == Some(res@),
{
    let operator = token_kind_to_operator_kind(kind).expect(
        "Failed to convert token kind to operator kind",
    );
    Node::BinaryExpression { left: Box::new(left), operator, right: Box::new(right) }
}

impl<'a> LangParser<'a> {
    fn parse_number(&mut self) -> (res: Result<Node, String>)
        requires
            lp_ends(lp_number(old(self).toks(), old(self).pos())),
        ensures
            final(self).toks() == old(self).toks(),
            final(self).ast == old(self).ast,
            lp_outcome(res, final(self).pos(), lp_number(old(self).toks(), old(self).pos())),
    {
        let val = Value::from_string(self.current_token()?.value);
        self.advance();
        Ok(Node::Atomic { value: val })
    }

    fn parse_left_parenthesis(&mut self) -> (res: Result<Node, String>)
        requires
            lp_ends(lp_left_paren(old(self).toks(), old(self).pos())),
        ensures
            final(self).toks() == old(self).toks(),
            final(self).ast == old(self).ast,
            lp_outcome(res, final(self).pos(), lp_left_paren(old(self).toks(), old(self).pos())),
    {
        let mut expression = owned("(");
        self.consume(TokenKind::LeftParenthesis)?;
        let ghost ts = self.toks();
        let ghost goal = lp_scan_mm(ts, self.pos(), expression@);
        while self.current_kind() != TokenKind::Semicolon
            invariant
                self.toks() == ts,
                self.ast == old(self).ast,
                ts == old(self).toks(),
                lp_ends(goal),
                goal == lp_left_paren(old(self).toks(), old(self).pos()),
                lp_scan_mm(ts, self.pos(), expression@) == goal,
                0 <= self.pos(),
            decreases ts.len() - self.pos(),
        {
            crate::text::push_all(&mut expression, self.current_token()?.value.as_str());
            self.advance();
        }
        Ok(Node::MMExpression { expression })
    }

    fn parse_identifier(&mut self) -> (res: Result<Node, String>)
        requires
            lp_ends(lp_identifier(old(self).toks(), old(self).pos())),
        ensures
            final(self).toks() == old(self).toks(),
            final(self).ast == old(self).ast,
            lp_outcome(res, final(self).pos(), lp_identifier(old(self).toks(), old(self).pos())),
    {
        let name = self.current_token()?;
        self.advance();
        Ok(var_operand_node(name.value))
    }

    fn parse_string(&mut self) -> (res: Result<Node, String>)
        requires
            lp_ends(lp_string(old(self).toks(), old(self).pos())),
        ensures
            final(self).toks() == old(self).toks(),
            final(self).ast == old(self).ast,
            lp_outcome(res, final(self).pos(), lp_string(old(self).toks(), old(self).pos())),
    {
        let val = Value::Str(self.current_token()?.value);
        self.advance();
        Ok(Node::Atomic { value: val })
    }

    fn parse_less_than(&mut self) -> (res: Result<Node, String>)
        requires
            lp_ends(lp_less_than(old(self).toks(), old(self).pos())),
        ensures
            final(self).toks() == old(self).toks(),
            final(self).ast == old(self).ast,
            lp_outcome(res, final(self).pos(), lp_less_than(old(self).toks(), old(self).pos())),
    {
        self.consume(TokenKind::LessThan)?;
        self.consume(TokenKind::GreaterThan)?;
        let res = Node::HMap { values: Vec::new() };
        assert(res@ == SNode::HMap { values: Seq::empty() }) by {
            crate::node::lemma_view_pairs(Seq::<(Node, Node)>::empty());
        }
        Ok(res)
    }
}

} // verus!

verus! {

impl<'a> LangParser<'a> {
    fn parse_node(&mut self, Ghost(fuel): Ghost<nat>) -> (res: Result<Node, String>)
        requires
            lp_ends(lp_node(old(self).toks(), old(self).pos(), fuel)),
        ensures
            final(self).toks() == old(self).toks(),
            final(self).ast == old(self).ast,
            lp_outcome(res, final(self).pos(), lp_node(old(self).toks(), old(self).pos(), fuel)),
        decreases fuel, 1nat,
    {
        let ghost f = (fuel - 1) as nat;
        match self.current_token()?.kind {
            TokenKind::Number => self.parse_number(),
            TokenKind::Word => self.parse_word(Ghost(f)),
            TokenKind::LeftParenthesis => self.parse_left_parenthesis(),
            TokenKind::Identifier => self.parse_identifier(),
            TokenKind::LBracket => self.parse_left_bracket(Ghost(f)),
            TokenKind::String => self.parse_string(),
            TokenKind::Negation => self.parse_negation(Ghost(f)),
            TokenKind::LessThan => self.parse_less_than(),
            _ => {
                let current = self.current_token()?;
                self.peek_token()?;
                Err(text_with("unexpected token: ", &token_debug_string(&current)))
            },
        }
    }

    fn parse_left_bracket(&mut self, Ghost(fuel): Ghost<nat>) -> (res: Result<Node, String>)
        requires
            lp_ends(lp_left_bracket(old(self).toks(), old(self).pos(), fuel)),
        ensures
            final(self).toks() == old(self).toks(),
            final(self).ast == old(self).ast,
            lp_outcome(res, final(self).pos(), lp_left_bracket(old(self).toks(), old(self).pos(), fuel)),
        decreases fuel, 1nat,
    {
        let ghost ts = self.toks();
        self.consume(TokenKind::LBracket)?;
        let mut nodes: Vec<Node> = Vec::new();
        let ghost mut fl: nat = (fuel - 1) as nat;
        let ghost goal = lp_elements(ts, self.pos(), Seq::empty(), fl);
        assert(view_nodes(nodes@) =~= Seq::<SNode>::empty());
        while self.current_kind() != TokenKind::RBracket
            invariant
                self.toks() == ts,
                ts == old(self).toks(),
                self.ast == old(self).ast,
                fl < fuel,
                lp_ends(goal),
                lp_elements(ts, self.pos(), view_nodes(nodes@), fl) == goal,
                goal matches LP::Got(els, q) ==> lp_left_bracket(ts, old(self).pos(), fuel) == LP::Got(SNode::Array { elements: els }, q),
                goal matches LP::Fail(m, q) ==> lp_left_bracket(ts, old(self).pos(), fuel) == LP::Fail::<SNode>(m, q),
            decreases fl,
        {
            let node = self.parse_node(Ghost((fl - 1) as nat))?;
            proof {
                lemma_view_nodes_push(nodes@, node);
            }
            nodes.push(node);
            if self.current_kind() == TokenKind::RBracket {
                self.consume(TokenKind::RBracket)?;
                return Ok(Node::Array { elements: nodes });
            }
            self.consume(TokenKind::Comma)?;
            proof {
                fl = (fl - 1) as nat;
            }
        }
        self.consume(TokenKind::RBracket)?;
        Ok(Node::Array { elements: nodes })
    }

    fn parse_negation(&mut self, Ghost(fuel): Ghost<nat>) -> (res: Result<Node, String>)
        requires
            lp_ends(lp_negation(old(self).toks(), old(self).pos(), fuel)),
        ensures
            final(self).toks() == old(self).toks(),
            final(self).ast == old(self).ast,
            lp_outcome(res, final(self).pos(), lp_negation(old(self).toks(), old(self).pos(), fuel)),
        decreases fuel, 1nat,
    {
        self.consume(TokenKind::Negation)?;
        let node = self.parse_node(Ghost((fuel - 1) as nat))?;
        Ok(Node::UnaryExpression { operator: OperatorKind::Negation, right: Box::new(node) })
    }

    fn parse_arguments(&mut self, Ghost(fuel): Ghost<nat>) -> (res: Result<Vec<Node>, String>)
        requires
            lp_ends(lp_args(old(self).toks(), old(self).pos(), Seq::empty(), fuel)),
        ensures
            final(self).toks() == old(self).toks(),
            final(self).ast == old(self).ast,
            lp_list_outcome(res, final(self).pos(), lp_args(old(self).toks(), old(self).pos(), Seq::empty(), fuel)),
        decreases fuel, 1nat,
    {
        let ghost ts = self.toks();
        let ghost goal = lp_args(ts, self.pos(), Seq::empty(), fuel);
        let mut arguments: Vec<Node> = Vec::new();
        let ghost mut fl: nat = fuel;
        assert(view_nodes(arguments@) =~= Seq::<SNode>::empty());
        while self.current_kind() != TokenKind::RightParenthesis
            invariant
                self.toks() == ts,
                ts == old(self).toks(),
                self.ast == old(self).ast,
                fl <= fuel,
                lp_ends(goal),
                goal == lp_args(ts, old(self).pos(), Seq::empty(), fuel),
                lp_args(ts, self.pos(), view_nodes(arguments@), fl) == goal,
            decreases fl,
        {
            let arg = self.parse_node(Ghost((fl - 1) as nat))?;
            proof {
                lemma_view_nodes_push(arguments@, arg);
            }
            arguments.push(arg);
            if self.current_kind() == TokenKind::RightParenthesis {
                return Ok(arguments);
            }
            self.consume(TokenKind::Comma)?;
            proof {
                fl = (fl - 1) as nat;
            }
        }
        Ok(arguments)
    }

    /// A parenthesized argument list, through the closing parenthesis.
    fn parse_call_arguments(&mut self, Ghost(fuel): Ghost<nat>) -> (res: Result<Vec<Node>, String>)
        requires
            lp_ends(lp_call_args(old(self).toks(), old(self).pos(), fuel)),
        ensures
            final(self).toks() == old(self).toks(),
            final(self).ast == old(self).ast,
            lp_list_outcome(res, final(self).pos(), lp_call_args(old(self).toks(), old(self).pos(), fuel)),
        decreases fuel, 1nat,
    {
        self.consume(TokenKind::LeftParenthesis)?;
        let arguments = self.parse_arguments(Ghost((fuel - 1) as nat))?;
        self.consume(TokenKind::RightParenthesis)?;
        Ok(arguments)
    }

    fn parse_consequence(&mut self, Ghost(fuel): Ghost<nat>) -> (res: Result<Vec<Node>, String>)
        requires
            lp_ends(lp_block(old(self).toks(), old(self).pos(), Seq::empty(), fuel)),
        ensures
            final(self).toks() == old(self).toks(),
            final(self).ast == old(self).ast,
            lp_list_outcome(res, final(self).pos(), lp_block(old(self).toks(), old(self).pos(), Seq::empty(), fuel)),
        decreases fuel, 1nat,
    {
        let ghost ts = self.toks();
        let ghost goal = lp_block(ts, self.pos(), Seq::empty(), fuel);
        let mut nodes: Vec<Node> = Vec::new();
        let ghost mut fl: nat = fuel;
        assert(view_nodes(nodes@) =~= Seq::<SNode>::empty());
        while self.current_kind() != TokenKind::RCurlyBracket
            invariant
                self.toks() == ts,
                ts == old(self).toks(),
                self.ast == old(self).ast,
                fl <= fuel,
                lp_ends(goal),
                goal == lp_block(ts, old(self).pos(), Seq::empty(), fuel),
                lp_block(ts, self.pos(), view_nodes(nodes@), fl) == goal,
            decreases fl,
        {
            let node = self.parse_node(Ghost((fl - 1) as nat))?;
            proof {
                lemma_view_nodes_push(nodes@, node);
                fl = (fl - 1) as nat;
            }
            nodes.push(node);
        }
        self.consume(TokenKind::RCurlyBracket)?;
        Ok(nodes)
    }

    fn parse_body(&mut self, Ghost(fuel): Ghost<nat>) -> (res: Result<Vec<Node>, String>)
        requires
            lp_ends(lp_block(old(self).toks(), old(self).pos(), Seq::empty(), fuel)),
        ensures
            final(self).toks() == old(self).toks(),
            final(self).ast == old(self).ast,
            lp_list_outcome(res, final(self).pos(), lp_block(old(self).toks(), old(self).pos(), Seq::empty(), fuel)),
        decreases fuel, 1nat,
    {
        let ghost ts = self.toks();
        let ghost goal = lp_block(ts, self.pos(), Seq::empty(), fuel);
        let mut nodes: Vec<Node> = Vec::new();
        let ghost mut fl: nat = fuel;
        assert(view_nodes(nodes@) =~= Seq::<SNode>::empty());
        while self.current_kind() != TokenKind::RCurlyBracket
            invariant
                self.toks() == ts,
                ts == old(self).toks(),
                self.ast == old(self).ast,
                fl <= fuel,
                lp_ends(goal),
                goal == lp_block(ts, old(self).pos(), Seq::empty(), fuel),
                lp_block(ts, self.pos(), view_nodes(nodes@), fl) == goal,
            decreases fl,
        {
            let node = self.parse_node(Ghost((fl - 1) as nat))?;
            proof {
                lemma_view_nodes_push(nodes@, node);
                fl = (fl - 1) as nat;
            }
            nodes.push(node);
        }
        self.consume(TokenKind::RCurlyBracket)?;
        Ok(nodes)
    }
}

} // verus!

verus! {

impl<'a> LangParser<'a> {
    fn parse_print(&mut self, Ghost(fuel): Ghost<nat>) -> (res: Result<Node, String>)
        requires
            lp_ends(lp_print(old(self).toks(), old(self).pos(), fuel)),
        ensures
            final(self).toks() == old(self).toks(),
            final(self).ast == old(self).ast,
            lp_outcome(res, final(self).pos(), lp_print(old(self).toks(), old(self).pos(), fuel)),
        decreases fuel, 1nat,
    {
        self.consume(TokenKind::LeftParenthesis)?;
        let input = self.parse_node(Ghost((fuel - 1) as nat))?;
        self.advance();
        self.consume(TokenKind::Semicolon)?;
        let ghost iv = input@;
        let arguments = vec![input];
        proof {
            lemma_view_nodes_push(Seq::<Node>::empty(), arguments@[0]);
            assert(arguments@ =~= Seq::<Node>::empty().push(arguments@[0]));
            assert(view_nodes(Seq::<Node>::empty()) =~= Seq::<SNode>::empty());
        }
        let node = Node::Call { name: owned("print"), arguments, returns: Vec::new() };
        Ok(node)
    }

    fn parse_len(&mut self, Ghost(fuel): Ghost<nat>) -> (res: Result<Node, String>)
        requires
            lp_ends(lp_len(old(self).toks(), old(self).pos(), fuel)),
        ensures
            final(self).toks() == old(self).toks(),
            final(self).ast == old(self).ast,
            lp_outcome(res, final(self).pos(), lp_len(old(self).toks(), old(self).pos(), fuel)),
        decreases fuel, 1nat,
    {
        self.consume(TokenKind::LeftParenthesis)?;
        let input = self.parse_node(Ghost((fuel - 1) as nat))?;
        self.consume(TokenKind::RightParenthesis)?;
        self.consume(TokenKind::Semicolon)?;
        let ghost iv = input@;
        let arguments = vec![input];
        proof {
            lemma_view_nodes_push(Seq::<Node>::empty(), arguments@[0]);
            assert(arguments@ =~= Seq::<Node>::empty().push(arguments@[0]));
            assert(view_nodes(Seq::<Node>::empty()) =~= Seq::<SNode>::empty());
        }
        let node = Node::Call { name: owned("len"), arguments, returns: Vec::new() };
        Ok(node)
    }

    fn parse_let(&mut self, Ghost(fuel): Ghost<nat>) -> (res: Result<Node, String>)
        requires
            lp_ends(lp_let(old(self).toks(), old(self).pos(), fuel)),
        ensures
            final(self).toks() == old(self).toks(),
            final(self).ast == old(self).ast,
            lp_outcome(res, final(self).pos(), lp_let(old(self).toks(), old(self).pos(), fuel)),
        decreases fuel, 1nat,
    {
        let ghost f = (fuel - 1) as nat;
        let name = self.current_token()?;
        self.consume(TokenKind::Word)?;
        self.consume(TokenKind::Equality)?;
        let left = self.parse_node(Ghost(f))?;
        let k = self.current_kind();
        if k == TokenKind::Add || k == TokenKind::Modulo || k == TokenKind::Subtract
            || k == TokenKind::Multiply || k == TokenKind::Divide || k == TokenKind::BitwiseAnd
            || k == TokenKind::BitwiseOr || k == TokenKind::BitwiseXor || k == TokenKind::ShiftLeft
            || k == TokenKind::ShiftRight {
            let op = self.current_token()?;
            self.advance();
            let right = self.parse_node(Ghost(f))?;
            let n = bin_node_of(left, op.kind, right);
            let ident = Node::AssignStmt {
                left: Box::new(var_ident_node(name.value)),
                right: Box::new(n),
                kind: owned("str"),
            };
            self.consume(TokenKind::Semicolon)?;
            return Ok(ident);
        }
        let ident = Node::AssignStmt {
            left: Box::new(var_ident_node(name.value)),
            right: Box::new(left),
            kind: owned("str"),
        };
        if self.current_kind() == TokenKind::Semicolon {
            self.consume(TokenKind::Semicolon)?;
        }
        Ok(ident)
    }

    fn parse_method_call(&mut self, target: Token, Ghost(fuel): Ghost<nat>) -> (res: Result<Node, String>)
        requires
            lp_ends(lp_method_call(old(self).toks(), old(self).pos(), target.value@, fuel)),
        ensures
            final(self).toks() == old(self).toks(),
            final(self).ast == old(self).ast,
            lp_outcome(res, final(self).pos(), lp_method_call(old(self).toks(), old(self).pos(), target.value@, fuel)),
        decreases fuel, 1nat,
    {
        self.consume(TokenKind::Period)?;
        let function_name = self.current_token()?;
        self.consume(TokenKind::Word)?;
        let arguments = self.parse_call_arguments(Ghost((fuel - 1) as nat))?;
        assert(view_nodes(Seq::<Node>::empty()) =~= Seq::<SNode>::empty());
        Ok(
            Node::MethodCall {
                name: function_name.value,
                target: target.value,
                arguments,
                returns: Vec::new(),
            },
        )
    }

    fn parse_if(&mut self, Ghost(fuel): Ghost<nat>) -> (res: Result<Node, String>)
        requires
            lp_ends(lp_if(old(self).toks(), old(self).pos(), fuel)),
        ensures
            final(self).toks() == old(self).toks(),
            final(self).ast == old(self).ast,
            lp_outcome(res, final(self).pos(), lp_if(old(self).toks(), old(self).pos(), fuel)),
        decreases fuel, 1nat,
    {
        let ghost f = (fuel - 1) as nat;
        let condition = self.parse_condition_header(Ghost(f))?;
        self.consume(TokenKind::LCurlyBracket)?;
        let consequence = self.parse_consequence(Ghost(f))?;
        if !text_is(&self.current_token()?.value, "else") {
            let res = Node::Conditional {
                condition: Box::new(condition),
                consequence,
                alternative: Vec::new(),
            };
            assert(view_nodes(Seq::<Node>::empty()) =~= Seq::<SNode>::empty());
            return Ok(res);
        }
        self.consume(TokenKind::Word)?;
        self.consume(TokenKind::LCurlyBracket)?;
        let alternative = self.parse_consequence(Ghost(f))?;
        Ok(Node::Conditional { condition: Box::new(condition), consequence, alternative })
    }

    fn parse_function_name(&mut self) -> (res: Result<Node, String>)
        requires
            lp_ends(lp_consume(old(self).toks(), old(self).pos(), TokenKind::Word)),
        ensures
            final(self).toks() == old(self).toks(),
            final(self).ast == old(self).ast,
            lp_outcome(
                res,
                final(self).pos(),
                then_consume(
                    old(self).toks(),
                    old(self).pos(),
                    TokenKind::Word,
                    SNode::Ident { name: lcur(old(self).toks(), old(self).pos()).value, kind: "fn"@ },
                ),
            ),
    {
        let name = self.current_token()?;
        self.consume(TokenKind::Word)?;
        Ok(Node::Ident { name: name.value, kind: owned("fn") })
    }

    fn parse_function_input(&mut self) -> (res: Result<Node, String>)
        requires
            lp_ends(lp_consume(old(self).toks(), old(self).pos(), TokenKind::Word)),
        ensures
            final(self).toks() == old(self).toks(),
            final(self).ast == old(self).ast,
            lp_outcome(
                res,
                final(self).pos(),
                then_consume(
                    old(self).toks(),
                    old(self).pos(),
                    TokenKind::Word,
                    var_ident(lcur(old(self).toks(), old(self).pos()).value),
                ),
            ),
    {
        let ident = self.current_token()?;
        self.consume(TokenKind::Word)?;
        Ok(var_ident_node(ident.value))
    }

    fn parse_function(&mut self, Ghost(fuel): Ghost<nat>) -> (res: Result<Node, String>)
        requires
            lp_ends(lp_function(old(self).toks(), old(self).pos(), fuel)),
        ensures
            final(self).toks() == old(self).toks(),
            final(self).ast == old(self).ast,
            lp_outcome(res, final(self).pos(), lp_function(old(self).toks(), old(self).pos(), fuel)),
        decreases fuel, 1nat,
    {
        let ghost ts = self.toks();
        self.consume(TokenKind::Word)?;
        let name = self.parse_function_name()?;
        self.consume(TokenKind::LeftParenthesis)?;
        let mut arguments: Vec<Node> = Vec::new();
        let ghost goal = lp_params(ts, self.pos(), Seq::empty());
        assert(view_nodes(arguments@) =~= Seq::<SNode>::empty());
        while self.current_kind() != TokenKind::RightParenthesis
            invariant
                self.toks() == ts,
                ts == old(self).toks(),
                self.ast == old(self).ast,
                lp_ends(goal),
                lp_params(ts, self.pos(), view_nodes(arguments@)) == goal,
                0 <= self.pos(),
                goal matches LP::Fail(m, q) ==> lp_function(ts, old(self).pos(), fuel) == LP::Fail::<SNode>(m, q),
                lcur(ts, old(self).pos() + 1).value == name->Ident_name@,
                goal is Got ==> lp_function(ts, old(self).pos(), fuel) == match goal {
                    LP::Got(args, q3) => match lp_consume(ts, q3, TokenKind::RightParenthesis) {
                        LP::Got(_, q4) => match lp_consume(ts, q4, TokenKind::LCurlyBracket) {
                            LP::Got(_, q5) => match lp_block(ts, q5, Seq::empty(), (fuel - 1) as nat) {
                                LP::Got(body, q6) => LP::Got(
                                    SNode::FunctionDecl {
                                        name: Box::new(SNode::Ident { name: lcur(ts, old(self).pos() + 1).value, kind: "fn"@ }),
                                        arguments: args,
                                        returns: Seq::empty(),
                                        body,
                                    },
                                    q6,
                                ),
                                LP::Fail(m, q6) => LP::Fail(m, q6),
                                LP::Panic => LP::Panic,
                                LP::Stall => LP::Stall,
                            },
                            LP::Fail(m, q5) => LP::Fail(m, q5),
                            LP::Panic => LP::Panic,
                            LP::Stall => LP::Stall,
                        },
                        LP::Fail(m, q4) => LP::Fail(m, q4),
                        LP::Panic => LP::Panic,
                        LP::Stall => LP::Stall,
                    },
                    _ => LP::Panic,
                },
            decreases ts.len() - self.pos(),
        {
            let arg = self.parse_function_input()?;
            if self.current_kind() != TokenKind::RightParenthesis {
                self.consume(TokenKind::Comma)?;
            }
            proof {
                lemma_view_nodes_push(arguments@, arg);
            }
            arguments.push(arg);
        }
        self.consume(TokenKind::RightParenthesis)?;
        self.consume(TokenKind::LCurlyBracket)?;
        let body = self.parse_body(Ghost((fuel - 1) as nat))?;
        let res = Node::FunctionDecl {
            name: Box::new(name),
            arguments,
            returns: Vec::new(),
            body,
        };
        assert(view_nodes(Seq::<Node>::empty()) =~= Seq::<SNode>::empty());
        Ok(res)
    }

    /// Expressions are not parsed by this function yet.
    fn parse_expression(&mut self) -> (res: Result<Node, String>)
        ensures
            res matches Err(e) && e@ == "not yet implemented"@,
            final(self).toks() == old(self).toks(),
            final(self).pos() == old(self).pos(),
    {
        Err(owned("not yet implemented"))
    }
}

} // verus!

verus! {

/// Whether `name` is one of the words `parse_word` treats specially.
pub open spec fn keyword(name: Seq<char>) -> bool {
    name == "print"@ || name == "let"@ || name == "if"@ || name == "break"@ || name == "return"@
        || name == "true"@ || name == "false"@ || name == "bin"@
}

impl<'a> LangParser<'a> {
    fn parse_word(&mut self, Ghost(fuel): Ghost<nat>) -> (res: Result<Node, String>)
        requires
            lp_ends(lp_word(old(self).toks(), old(self).pos(), fuel)),
        ensures
            final(self).toks() == old(self).toks(),
            final(self).ast == old(self).ast,
            lp_outcome(res, final(self).pos(), lp_word(old(self).toks(), old(self).pos(), fuel)),
        decreases fuel, 1nat,
    {
        let ghost f = (fuel - 1) as nat;
        let name = self.current_token()?;
        self.advance();
        if text_is(&name.value, "print") {
            return self.parse_print(Ghost(f));
        } else if text_is(&name.value, "let") {
            let ident = self.parse_let(Ghost(f))?;
            return Ok(ident);
        } else if text_is(&name.value, "if") {
            return self.parse_if(Ghost(f));
        } else if text_is(&name.value, "break") {
            self.consume(TokenKind::Semicolon)?;
            return Ok(Node::Break {  });
        } else if text_is(&name.value, "return") {
            let value = self.parse_node(Ghost(f))?;
            self.consume(TokenKind::Semicolon)?;
            return Ok(Node::Return { value: Box::new(value) });
        } else if text_is(&name.value, "true") {
            return Ok(Node::Atomic { value: Value::Bool(true) });
        } else if text_is(&name.value, "false") {
            return Ok(Node::Atomic { value: Value::Bool(false) });
        } else if text_is(&name.value, "bin") {
            return self.parse_bin(Ghost(f));
        }
        self.parse_word_tail(name, Ghost(f))
    }

    /// `bin(value)`, optionally followed by a binary connective and a right operand.
    fn parse_bin(&mut self, Ghost(fuel): Ghost<nat>) -> (res: Result<Node, String>)
        requires
            lp_ends(lp_bin(old(self).toks(), old(self).pos(), fuel)),
        ensures
            final(self).toks() == old(self).toks(),
            final(self).ast == old(self).ast,
            lp_outcome(res, final(self).pos(), lp_bin(old(self).toks(), old(self).pos(), fuel)),
        decreases fuel, 1nat,
    {
        let ghost f = (fuel - 1) as nat;
        self.consume(TokenKind::LeftParenthesis)?;
        let value = self.parse_node(Ghost(f))?;
        self.consume(TokenKind::RightParenthesis)?;
        if self.current_kind().is_binary_operator() {
            let op = self.current_token()?;
            self.advance();
            let right = self.parse_node(Ghost(f))?;
            return Ok(bin_node_of(value, op.kind, right));
        }
        let integer = fetch_integer(value)?;
        Ok(Node::Atomic { value: Value::Bin(integer as u32) })
    }

    /// What follows a word that is not a keyword: a method call, a call, an
    /// assignment, an arithmetic operand, an index, or the variable itself.
    fn parse_word_tail(&mut self, name: Token, Ghost(fuel): Ghost<nat>) -> (res: Result<Node, String>)
        requires
            lp_ends(lp_word_tail(old(self).toks(), old(self).pos(), name.value@, fuel)),
        ensures
            final(self).toks() == old(self).toks(),
            final(self).ast == old(self).ast,
            lp_outcome(res, final(self).pos(), lp_word_tail(old(self).toks(), old(self).pos(), name.value@, fuel)),
        decreases fuel, 1nat,
    {
        let ghost f = (fuel - 1) as nat;
        if self.current_kind() == TokenKind::Period {
            let res = self.parse_method_call(name, Ghost(f))?;
            if self.current_kind() == TokenKind::Semicolon {
                self.advance();
            }
            return Ok(res);
        }
        if self.current_kind() == TokenKind::LeftParenthesis {
            let arguments = self.parse_call_arguments(Ghost(f))?;
            assert(view_nodes(Seq::<Node>::empty()) =~= Seq::<SNode>::empty());
            return Ok(Node::Call { name: name.value, arguments, returns: Vec::new() });
        }
        match self.current_kind() {
            TokenKind::Equality => {
                self.consume(TokenKind::Equality)?;
                let value = self.parse_node(Ghost(f))?;
                self.consume(TokenKind::Semicolon)?;
                Ok(
                    Node::AssignStmt {
                        left: Box::new(var_ident_node(name.value)),
                        kind: owned("Nat"),
                        right: Box::new(value),
                    },
                )
            },
            TokenKind::Add | TokenKind::Subtract | TokenKind::Multiply | TokenKind::Divide => {
                let operator = self.current_token()?;
                self.advance();
                let right = self.parse_node(Ghost(f))?;
                Ok(bin_node_of(var_operand_node(name.value), operator.kind, right))
            },
            TokenKind::LBracket => {
                self.consume(TokenKind::LBracket)?;
                let index = self.parse_node(Ghost(f))?;
                self.consume(TokenKind::RBracket)?;
                if self.current_kind() == TokenKind::LBracket {
                    self.consume(TokenKind::LBracket)?;
                    let index2 = self.parse_node(Ghost(f))?;
                    self.consume(TokenKind::RBracket)?;
                    if self.current_kind() == TokenKind::Equality {
                        self.consume(TokenKind::Equality)?;
                        let _right = self.parse_node(Ghost(f))?;
                        return vstd::pervasive::unreached();
                    }
                    let ghost (iv, i2v) = (index@, index2@);
                    let res = Node::IndexExpression {
                        left: Box::new(
                            Node::IndexExpression {
                                left: Box::new(var_ident_node(name.value)),
                                index: Box::new(index),
                            },
                        ),
                        index: Box::new(index2),
                    };
                    assert(res@ == SNode::IndexExpression {
                        left: Box::new(SNode::IndexExpression {
                            left: Box::new(var_ident(name.value@)),
                            index: Box::new(iv),
                        }),
                        index: Box::new(i2v),
                    }) by {
                        reveal_with_fuel(crate::node::view_node, 3);
                    }
                    return Ok(res);
                }
                Ok(
                    Node::IndexExpression {
                        left: Box::new(var_operand_node(name.value)),
                        index: Box::new(index),
                    },
                )
            },
            _ => Ok(var_ident_node(name.value)),
        }
    }

    fn parse_condition_header(&mut self, Ghost(fuel): Ghost<nat>) -> (res: Result<Node, String>)
        requires
            lp_ends(lp_condition_header(old(self).toks(), old(self).pos(), fuel)),
        ensures
            final(self).toks() == old(self).toks(),
            final(self).ast == old(self).ast,
            lp_outcome(res, final(self).pos(), lp_condition_header(old(self).toks(), old(self).pos(), fuel)),
        decreases fuel, 1nat,
    {
        let ghost f = (fuel - 1) as nat;
        self.consume(TokenKind::LeftParenthesis)?;
        match self.current_kind() {
            TokenKind::Word => self.parse_condition_word(Ghost(f)),
            TokenKind::Number => self.parse_condition_number(Ghost(f)),
            _ => {
                let current = self.current_token()?;
                Err(text_with("invalid conditional: ", &token_debug_string(&current)))
            },
        }
    }

    fn parse_condition_word(&mut self, Ghost(fuel): Ghost<nat>) -> (res: Result<Node, String>)
        requires
            lp_ends(lp_condition_word(old(self).toks(), old(self).pos(), fuel)),
        ensures
            final(self).toks() == old(self).toks(),
            final(self).ast == old(self).ast,
            lp_outcome(res, final(self).pos(), lp_condition_word(old(self).toks(), old(self).pos(), fuel)),
        decreases fuel, 1nat,
    {
        let ghost f = (fuel - 1) as nat;
        self.len_bound();
            let n = self.parse_node(Ghost(f))?;
            if self.current_kind() == TokenKind::RightParenthesis {
                self.advance();
                return Ok(n);
            }
            let operator = self.current_token()?;
            self.advance();
            let right = self.parse_node(Ghost(f))?;
            if self.current_kind().is_binary_operator() {
                let op = self.current_token()?;
                self.advance();
                let right_left = self.parse_node(Ghost(f))?;
                if self.current_kind() != TokenKind::RightParenthesis {
                    let op_right = self.current_token()?;
                    self.advance();
                    let right_right = self.parse_node(Ghost(f))?;
                    self.consume(TokenKind::RightParenthesis)?;
                    let a = bin_node_of(n, operator.kind, right);
                    let b = bin_node_of(right_left, op_right.kind, right_right);
                    return Ok(bin_node_of(a, op.kind, b));
                }
                let a = bin_node_of(n, operator.kind, right);
                return Ok(bin_node_of(a, op.kind, right_left));
            }
            self.consume(TokenKind::RightParenthesis)?;
            Ok(bin_node_of(n, operator.kind, right))
    }

    fn parse_condition_number(&mut self, Ghost(fuel): Ghost<nat>) -> (res: Result<Node, String>)
        requires
            lp_ends(lp_condition_number(old(self).toks(), old(self).pos(), fuel)),
        ensures
            final(self).toks() == old(self).toks(),
            final(self).ast == old(self).ast,
            lp_outcome(res, final(self).pos(), lp_condition_number(old(self).toks(), old(self).pos(), fuel)),
        decreases fuel, 1nat,
    {
        let ghost f = (fuel - 1) as nat;
        self.len_bound();
            let left = self.current_token()?;
            self.advance();
            let operator = self.current_token()?;
            self.advance();
            let right = self.parse_condition(Ghost(f))?;
            let value = parse_i32(left.value.as_str()).unwrap();
            Ok(bin_node_of(Node::Atomic { value: Value::Int(value) }, operator.kind, right))
    }

    fn parse_condition(&mut self, Ghost(fuel): Ghost<nat>) -> (res: Result<Node, String>)
        requires
            lp_ends(lp_condition(old(self).toks(), old(self).pos(), fuel)),
        ensures
            final(self).toks() == old(self).toks(),
            final(self).ast == old(self).ast,
            lp_outcome(res, final(self).pos(), lp_condition(old(self).toks(), old(self).pos(), fuel)),
        decreases fuel, 1nat,
    {
        let ghost f = (fuel - 1) as nat;
        self.len_bound();
        let left = self.current_token()?;
        if text_is(&left.value, "true") {
            self.advance();
            return Ok(Node::Atomic { value: Value::Bool(true) });
        } else if text_is(&left.value, "false") {
            self.advance();
            return Ok(Node::Atomic { value: Value::Bool(false) });
        }
        if self.peek_token()?.kind == TokenKind::RightParenthesis {
            let val = self.current_token()?.value;
            self.advance();
            if self.current_kind() != TokenKind::Number {
                self.consume(TokenKind::RightParenthesis)?;
                return Ok(Node::Atomic { value: Value::Int(parse_i32(val.as_str()).unwrap()) });
            }
            self.advance();
            self.consume(TokenKind::RightParenthesis)?;
            return Ok(var_operand_node(left.value));
        }
        self.advance();
        let operator = self.current_token()?;
        self.advance();
        let right = self.parse_node(Ghost(f))?;
        let node = bin_node_of(var_operand_node(left.value), operator.kind, right);
        let k = self.current_kind();
        if k != TokenKind::And && k != TokenKind::Or {
            return Ok(node);
        }
        let op = self.current_token()?;
        self.advance();
        let right2 = self.parse_condition(Ghost(f))?;
        Ok(bin_node_of(node, op.kind, right2))
    }

    /// The body of a `for` loop: nodes until the curly brackets after them balance.
    fn parse_for_body(&mut self, Ghost(fuel): Ghost<nat>) -> (res: Result<Vec<Node>, String>)
        requires
            lp_ends(lp_for_body(old(self).toks(), old(self).pos(), Seq::empty(), 1, fuel)),
        ensures
            final(self).toks() == old(self).toks(),
            final(self).ast == old(self).ast,
            lp_list_outcome(res, final(self).pos(), lp_for_body(old(self).toks(), old(self).pos(), Seq::empty(), 1, fuel)),
        decreases fuel, 1nat,
    {
        let ghost ts = self.toks();
        let ghost goal = lp_for_body(ts, self.pos(), Seq::empty(), 1, fuel);
        let mut bracket_count: i32 = 1;
        let mut nodes: Vec<Node> = Vec::new();
        let ghost mut fl: nat = fuel;
        assert(view_nodes(nodes@) =~= Seq::<SNode>::empty());
        while bracket_count > 0
            invariant
                self.toks() == ts,
                ts == old(self).toks(),
                self.ast == old(self).ast,
                fl <= fuel,
                lp_ends(goal),
                goal == lp_for_body(ts, old(self).pos(), Seq::empty(), 1, fuel),
                lp_for_body(ts, self.pos(), view_nodes(nodes@), bracket_count as int, fl) == goal,
            decreases fl,
        {
            let node = self.parse_node(Ghost((fl - 1) as nat))?;
            proof {
                lemma_view_nodes_push(nodes@, node);
                fl = (fl - 1) as nat;
            }
            nodes.push(node);
            if self.current_kind() == TokenKind::LCurlyBracket {
                bracket_count += 1;
            } else if self.current_kind() == TokenKind::RCurlyBracket {
                bracket_count -= 1;
            }
        }
        Ok(nodes)
    }

    fn parse_for_loop(&mut self, Ghost(fuel): Ghost<nat>) -> (res: Result<Node, String>)
        requires
            lp_ends(lp_for_loop(old(self).toks(), old(self).pos(), fuel)),
        ensures
            final(self).toks() == old(self).toks(),
            final(self).ast == old(self).ast,
            lp_outcome(res, final(self).pos(), lp_for_loop(old(self).toks(), old(self).pos(), fuel)),
        decreases fuel, 1nat,
    {
        let ghost f = (fuel - 1) as nat;
        let variable = self.current_token()?;
        self.consume(TokenKind::Word)?;
        self.consume(TokenKind::Word)?;
        let start = self.current_token()?;
        self.consume(TokenKind::Number)?;
        self.consume(TokenKind::Range)?;
        let end = self.current_token()?;
        match end.kind {
            TokenKind::Number => {
                self.advance();
                self.consume(TokenKind::LCurlyBracket)?;
                let nodes = self.parse_for_body(Ghost(f))?;
                self.consume(TokenKind::RCurlyBracket)?;
                let first = parse_i32(start.value.as_str()).unwrap();
                let last = parse_i32(end.value.as_str()).unwrap();
                let ghost bv = view_nodes(nodes@);
                let res = Node::ForLoop {
                    variable: variable.value,
                    range: (
                        Box::new(Node::Atomic { value: Value::Int(first) }),
                        Box::new(Node::Atomic { value: Value::Int(last) }),
                    ),
                    body: nodes,
                };
                assert(res@ == SNode::ForLoop {
                    variable: variable.value@,
                    range: (
                        Box::new(SNode::Atomic { value: SValue::Int(first) }),
                        Box::new(SNode::Atomic { value: SValue::Int(last) }),
                    ),
                    body: bv,
                }) by {
                    reveal_with_fuel(crate::node::view_node, 3);
                }
                Ok(res)
            },
            TokenKind::Word => {
                self.consume(TokenKind::Word)?;
                self.consume(TokenKind::LCurlyBracket)?;
                let nodes = self.parse_for_body(Ghost(f))?;
                self.consume(TokenKind::RCurlyBracket)?;
                let first = parse_i32(start.value.as_str()).unwrap();
                let ghost bv = view_nodes(nodes@);
                let res = Node::ForLoop {
                    variable: variable.value,
                    range: (
                        Box::new(Node::Atomic { value: Value::Int(first) }),
                        Box::new(var_ident_node(end.value)),
                    ),
                    body: nodes,
                };
                assert(res@ == SNode::ForLoop {
                    variable: variable.value@,
                    range: (
                        Box::new(SNode::Atomic { value: SValue::Int(first) }),
                        Box::new(var_ident(end.value@)),
                    ),
                    body: bv,
                }) by {
                    reveal_with_fuel(crate::node::view_node, 3);
                }
                Ok(res)
            },
            _ => Err(text_with("expected number, got ", &token_debug_string(&end))),
        }
    }
}

} // verus!

verus! {

/// Whether parsing the tokens from `p` on ends (with some bound on nesting).
pub open spec fn program_parses(ts: Seq<SToken>, p: int) -> bool {
    exists|f: nat| lp_ends(lp_program(ts, p, Seq::empty(), f))
}

/// The outcome of parsing the tokens from `p` on.
pub open spec fn program_parse(ts: Seq<SToken>, p: int) -> LP<Seq<SNode>> {
    lp_program(ts, p, Seq::empty(), choose|f: nat| lp_ends(lp_program(ts, p, Seq::empty(), f)))
}

impl<'a> LangParser<'a> {
    /// The statements of the program from the current position on.
    #[verifier::rlimit(40)]
    fn parse_program(&mut self, Ghost(fuel): Ghost<nat>) -> (res: Result<Vec<Node>, String>)
        requires
            lp_ends(lp_program(old(self).toks(), old(self).pos(), Seq::empty(), fuel)),
        ensures
            final(self).toks() == old(self).toks(),
            final(self).ast == old(self).ast,
            lp_list_outcome(res, final(self).pos(), lp_program(old(self).toks(), old(self).pos(), Seq::empty(), fuel)),
    {
        let ghost ts = self.toks();
        let ghost goal = lp_program(ts, self.pos(), Seq::empty(), fuel);
        let mut nodes: Vec<Node> = Vec::new();
        let ghost mut fl: nat = fuel;
        assert(view_nodes(nodes@) =~= Seq::<SNode>::empty());
        self.len_bound();
        while self.position < self.tokens.len()
            invariant
                self.toks() == ts,
                ts == old(self).toks(),
                ts.len() <= usize::MAX,
                self.ast == old(self).ast,
                lp_ends(goal),
                goal == lp_program(ts, old(self).pos(), Seq::empty(), fuel),
                lp_program(ts, self.pos(), view_nodes(nodes@), fl) == goal,
            decreases fl,
        {
            assert(self.toks().len() == self.tokens@.len());
            let ghost f = (fl - 1) as nat;
            let ghost acc = view_nodes(nodes@);
            let current = self.current_token()?;
            match current.kind {
                TokenKind::Word => {
                    if text_is(&current.value, "print") {
                        self.consume(TokenKind::Word)?;
                        let node = self.parse_print(Ghost(f))?;
                        proof {
                            lemma_view_nodes_push(nodes@, node);
                            fl = f;
                        }
                        nodes.push(node);
                        continue;
                    } else if text_is(&current.value, "let") {
                        self.advance();
                        let ident = self.parse_let(Ghost(f))?;
                        proof {
                            lemma_view_nodes_push(nodes@, ident);
                            fl = f;
                        }
                        nodes.push(ident);
                        continue;
                    } else if text_is(&current.value, "type") {
                        self.consume(TokenKind::Word)?;
                        let declared = self.current_token()?;
                        self.consume(TokenKind::Word)?;
                        self.consume(TokenKind::Semicolon)?;
                        let node = Node::Type { name: declared.value };
                        proof {
                            lemma_view_nodes_push(nodes@, node);
                            fl = f;
                        }
                        nodes.push(node);
                        continue;
                    } else if text_is(&current.value, "if") {
                        self.consume(TokenKind::Word)?;
                        let node = self.parse_if(Ghost(f))?;
                        proof {
                            lemma_view_nodes_push(nodes@, node);
                            fl = f;
                        }
                        nodes.push(node);
                        continue;
                    } else if text_is(&current.value, "for") {
                        self.consume(TokenKind::Word)?;
                        let node = self.parse_for_loop(Ghost(f))?;
                        proof {
                            lemma_view_nodes_push(nodes@, node);
                            fl = f;
                        }
                        nodes.push(node);
                        continue;
                    } else if text_is(&current.value, "fn") {
                        let func = self.parse_function(Ghost(f))?;
                        proof {
                            lemma_view_nodes_push(nodes@, func);
                            fl = f;
                        }
                        nodes.push(func);
                        continue;
                    } else if text_is(&current.value, "bin") {
                        self.consume(TokenKind::Word)?;
                        self.consume(TokenKind::LeftParenthesis)?;
                        let value = self.parse_node(Ghost(f))?;
                        let bin = fetch_binary(value)?;
                        self.consume(TokenKind::RightParenthesis)?;
                        let node = Node::Atomic { value: Value::Bin(bin) };
                        proof {
                            lemma_view_nodes_push(nodes@, node);
                            fl = f;
                        }
                        nodes.push(node);
                        continue;
                    } else {
                        let ident = self.current_token()?;
                        self.consume(TokenKind::Word)?;
                        match self.current_kind() {
                            TokenKind::Equality => {
                                self.consume(TokenKind::Equality)?;
                                let value = self.parse_node(Ghost(f))?;
                                let node = Node::AssignStmt {
                                    left: Box::new(var_ident_node(ident.value)),
                                    right: Box::new(value),
                                    kind: owned("Nat"),
                                };
                                proof {
                                    lemma_view_nodes_push(nodes@, node);
                                }
                                nodes.push(node);
                                self.consume(TokenKind::Semicolon)?;
                                proof {
                                    fl = f;
                                }
                                continue;
                            },
                            TokenKind::LeftParenthesis => {
                                let arguments = self.parse_call_arguments(Ghost(f))?;
                                self.consume(TokenKind::Semicolon)?;
                                let node = Node::Call { name: ident.value, arguments, returns: Vec::new() };
                                assert(view_nodes(Seq::<Node>::empty()) =~= Seq::<SNode>::empty());
                                proof {
                                    lemma_view_nodes_push(nodes@, node);
                                }
                                nodes.push(node);
                            },
                            TokenKind::LBracket => {
                                self.consume(TokenKind::LBracket)?;
                                let index = self.parse_node(Ghost(f))?;
                                self.consume(TokenKind::RBracket)?;
                                self.consume(TokenKind::Equality)?;
                                let value = self.parse_node(Ghost(f))?;
                                let ghost (iv, vv) = (index@, value@);
                                let node = Node::AssignStmt {
                                    left: Box::new(
                                        Node::IndexExpression {
                                            left: Box::new(var_ident_node(ident.value)),
                                            index: Box::new(index),
                                        },
                                    ),
                                    right: Box::new(value),
                                    kind: String::new(),
                                };
                                assert(node@ == SNode::AssignStmt {
                                    left: Box::new(SNode::IndexExpression {
                                        left: Box::new(var_ident(ident.value@)),
                                        index: Box::new(iv),
                                    }),
                                    right: Box::new(vv),
                                    kind: Seq::empty(),
                                }) by {
                                    reveal_with_fuel(crate::node::view_node, 3);
                                }
                                self.consume(TokenKind::Semicolon)?;
                                proof {
                                    lemma_view_nodes_push(nodes@, node);
                                    fl = f;
                                }
                                nodes.push(node);
                                continue;
                            },
                            TokenKind::Period => {
                                let res = self.parse_method_call(ident, Ghost(f))?;
                                self.consume(TokenKind::Semicolon)?;
                                proof {
                                    lemma_view_nodes_push(nodes@, res);
                                    fl = f;
                                }
                                nodes.push(res);
                                continue;
                            },
                            _ => {},
                        }
                    }
                },
                TokenKind::Comment => {
                    self.advance();
                    proof {
                        fl = f;
                    }
                    continue;
                },
                TokenKind::BitwiseAnd => {
                    self.consume(TokenKind::BitwiseAnd)?;
                    if self.current_kind() != TokenKind::BitwiseAnd {
                        return Err(owned("Expected another hypothesis conjunction"));
                    }
                },
                _ => {
                    self.peek_token()?;
                    let current = self.current_token()?;
                    return Err(
                        text_with_around("unexpected token: ", &token_debug_string(&current), " while parsing"),
                    );
                },
            }
            self.advance();
            proof {
                fl = f;
            }
        }
        Ok(nodes)
    }
}

/// `prefix`, then `middle`, then `suffix`.
fn text_with_around(prefix: &str, middle: &String, suffix: &str) -> (res: String)
    ensures
        res@ == prefix@ + middle@ + suffix@,
{
    let mut res = text_with(prefix, middle);
    crate::text::push_all(&mut res, suffix);
    res
}

} // verus!

verus! {

impl<'a> LangParser<'a> {
    /// A parser over the tokens of `input`; the input must tokenize without error.
    pub fn new(input: &'a str) -> (res: Self)
        requires
            lang_lex(input@, 0) is Done,
        ensures
            lang_lex(input@, 0) matches LangLexOutcome::Done(t) && res.toks() == t,
            res.pos() == 0,
            res.prog().nodes@ == Seq::<Node>::empty(),
            res.prog().declarations@ == Map::<Seq<char>, SNode>::empty(),
            res.prog().output@ == Seq::<String>::empty(),
    {
        let mut lexer = LangLexer::new(input);
        match lexer.tokenize() {
            Ok(_) => (),
            Err(_) => vstd::pervasive::unreached(),
        }
        let tokens = lexer.tokens();
        Self { lexer, tokens, position: 0, ast: Ast::new() }
    }

    /// The tokens being parsed.
    pub fn tokens(&self) -> (res: Vec<Token>)
        ensures
            tokens_view(res@) == self.toks(),
    {
        let mut res: Vec<Token> = Vec::new();
        let mut i: usize = 0;
        while i < self.tokens.len()
            invariant
                i <= self.tokens.len(),
                res@ == self.tokens@.subrange(0, i as int),
            decreases self.tokens.len() - i,
        {
            res.push(self.tokens[i].clone());
            i += 1;
            assert(res@ =~= self.tokens@.subrange(0, i as int));
        }
        assert(res@ =~= self.tokens@);
        res
    }

    /// Parses the statements from the current position on into a new program.
    /// Only token lists whose parse ends (without a panic) are accepted.
    pub fn parse(&mut self) -> (res: Result<Ast, String>)
        requires
            program_parses(old(self).toks(), old(self).pos()),
        ensures
            final(self).toks() == old(self).toks(),
            match program_parse(old(self).toks(), old(self).pos()) {
                LP::Got(ns, q) => res matches Ok(a) && view_nodes(a.nodes@) == ns
                    && a.declarations@ == Map::<Seq<char>, SNode>::empty()
                    && a.output@ == Seq::<String>::empty() && final(self).pos() == q,
                LP::Fail(m, q) => res matches Err(e) && e@ == m && final(self).pos() == q,
                _ => false,
            },
    {
        let ghost f = choose|f: nat| lp_ends(lp_program(self.toks(), self.pos(), Seq::empty(), f));
        let nodes = self.parse_program(Ghost(f))?;
        let mut ast = Ast::new();
        ast.nodes = nodes;
        Ok(ast)
    }

    /// Tokenizes `input` and parses it from its start, adding the statements
    /// to the program on success. A tokenizing error is returned as it is.
    pub fn parse_input(&mut self, input: &'a str) -> (res: Result<(), String>)
        requires
            !(lang_lex(input@, 0) is Stuck),
            lang_lex(input@, 0) matches LangLexOutcome::Done(t) ==> program_parses(t, 0),
        ensures
            match lang_lex(input@, 0) {
                LangLexOutcome::Failed(_, m, _) => res matches Err(e) && e@ == m
                    && final(self).prog() == old(self).prog(),
                LangLexOutcome::Done(t) => final(self).toks() == t && match program_parse(t, 0) {
                    LP::Got(ns, q) => res is Ok && view_nodes(final(self).prog().nodes@) == view_nodes(
                        old(self).prog().nodes@,
                    ) + ns && final(self).prog().declarations@ == old(self).prog().declarations@
                        && final(self).prog().output@ == old(self).prog().output@ && final(self).pos() == q,
                    LP::Fail(m, q) => res matches Err(e) && e@ == m && final(self).prog() == old(self).prog() && final(self).pos() == q,
                    _ => false,
                },
                LangLexOutcome::Stuck => false,
            },
    {
        let ghost tt = match lang_lex(input@, 0) {
            LangLexOutcome::Done(t) => t,
            _ => Seq::empty(),
        };
        let mut lexer = LangLexer::new(input);
        lexer.tokenize()?;
        assert(Seq::<SToken>::empty() + tt =~= tt);
        self.tokens = lexer.tokens();
        self.position = 0;
        self.lexer = lexer;
        assert(self.toks() == tt);
        let ghost f = choose|f: nat| lp_ends(lp_program(tt, 0, Seq::empty(), f));
        let nodes = self.parse_program(Ghost(f))?;
        let ghost q = self.pos();
        let ghost before = self.ast.nodes@;
        let mut i: usize = 0;
        proof {
            crate::node::lemma_view_nodes(nodes@);
        }
        while i < nodes.len()
            invariant
                i <= nodes.len(),
                view_nodes(nodes@).len() == nodes@.len(),
                forall|k: int| 0 <= k < nodes@.len() ==> #[trigger] view_nodes(nodes@)[k] == nodes@[k]@,
                view_nodes(self.ast.nodes@) == view_nodes(before) + view_nodes(nodes@).subrange(0, i as int),
                self.ast.declarations@ == old(self).prog().declarations@,
                self.ast.output@ == old(self).prog().output@,
                before == old(self).prog().nodes@,
                self.toks() == tt,
                self.pos() == q,
            decreases nodes.len() - i,
        {
            let ghost prev = self.ast.nodes@;
            let n = crate::node::clone_node(&nodes[i]);
            proof {
                lemma_view_nodes_push(prev, n);
            }
            self.ast.add_node(n);
            i += 1;
            assert(view_nodes(nodes@).subrange(0, i as int) =~= view_nodes(nodes@).subrange(0, i - 1).push(nodes@[i - 1]@));
        }
        assert(view_nodes(nodes@).subrange(0, i as int) =~= view_nodes(nodes@));
        Ok(())
    }
}

} // verus!

verus! {

/// Each operator token stands for the operator of the same name: where a
/// token kind gives an operator, the two variants are spelled alike.
pub proof fn law_operator_tokens_keep_their_names(k: TokenKind)
    ensures
        operator_of_kind(k) matches Some(op) ==> crate::debug::op_debug_text(op)
            == kind_debug_text(k),
{
}

} // verus!
