//! The formula parser and the interface its lexers share.
use vstd::prelude::*;
use crate::lexer::{
    Token, SToken, TokenKind, DefaultLexer, stok, tokens_view, default_lex, binary_operator_kind,
    unary_operator_kind,
};
use crate::lang_lexer::{LangLexer, LangLexOutcome, lang_lex};
use crate::node::{Node, SNode, OperatorKind};
use crate::lang_parser::{operator_of_kind, token_kind_to_operator_kind};
use crate::text::{char_or, owned, nat_digits, push_all, usize_to_string};

verus! {

/// What a lexer offers: tokenizing its input character by character.
pub trait Lexer {
    /// The characters of the input.
    spec fn input_chars(&self) -> Seq<char>;

    /// The position of the current character.
    spec fn cursor(&self) -> int;

    /// The current character.
    spec fn current_char(&self) -> char;

    /// The tokens produced so far.
    spec fn lexed(&self) -> Seq<SToken>;

    /// The lexer's own consistency: the current character is the one at the cursor.
    spec fn well_formed(&self) -> bool;

    /// Whether tokenizing from the current state ends normally.
    spec fn can_tokenize(&self) -> bool;

    /// The tokens that tokenizing from the current state appends, and the
    /// position it stops at.
    spec fn tokenized(&self) -> (Seq<SToken>, int);

    /// Tokenizes the rest of the input.
    fn tokenize(&mut self)
        requires
            old(self).well_formed(),
            old(self).can_tokenize(),
        ensures
            final(self).well_formed(),
            final(self).input_chars() == old(self).input_chars(),
            final(self).lexed() == old(self).lexed() + old(self).tokenized().0,
            final(self).cursor() == old(self).tokenized().1,
    ;

    /// The token whose index is the current position.
    fn current_token(&self) -> (t: Token)
        requires
            0 <= self.cursor() < self.lexed().len(),
        ensures
            t@ == self.lexed()[self.cursor()],
    ;

    /// Moves to the next character (a space past the end of the input).
    fn next_char(&mut self)
        requires
            old(self).well_formed(),
            old(self).cursor() + 1 <= usize::MAX,
        ensures
            final(self).well_formed(),
            final(self).cursor() == old(self).cursor() + 1,
            final(self).current_char() == char_or(final(self).input_chars(), final(self).cursor(), ' '),
            final(self).input_chars() == old(self).input_chars(),
            final(self).lexed() == old(self).lexed(),
    ;

    /// The character after the current one (a space past the end of the input).
    fn peek(&self) -> (c: char)
        ensures
            c == char_or(self.input_chars(), self.cursor() + 1, ' '),
    ;

    /// The tokens produced so far.
    fn tokens(&self) -> (ts: Vec<Token>)
        ensures
            crate::lexer::tokens_view(ts@) == self.lexed(),
    ;
}

} // verus!

verus! {

/// Errors of the formula parser.
#[derive(Debug)]
pub enum ParseError {
    UnexpectedToken,
    EmptyNode,
    AccessOutOfBoundsToken { position: usize, total_tokens: usize, caller: String },
    UnhandledBehaviour,
    UnclosedParenthesis,
}

/// The model of a [`ParseError`].
pub enum SParseError {
    UnexpectedToken,
    EmptyNode,
    AccessOutOfBoundsToken { position: usize, total_tokens: usize, caller: Seq<char> },
    UnhandledBehaviour,
    UnclosedParenthesis,
}

impl View for ParseError {
    type V = SParseError;

    open spec fn view(&self) -> SParseError {
        match self {
            ParseError::UnexpectedToken => SParseError::UnexpectedToken,
            ParseError::EmptyNode => SParseError::EmptyNode,
            ParseError::AccessOutOfBoundsToken { position, total_tokens, caller } =>
                SParseError::AccessOutOfBoundsToken {
                position: *position,
                total_tokens: *total_tokens,
                caller: caller@,
            },
            ParseError::UnhandledBehaviour => SParseError::UnhandledBehaviour,
            ParseError::UnclosedParenthesis => SParseError::UnclosedParenthesis,
        }
    }
}

} // verus!

verus! {

/// Result of a parsing function on the model: the node and the position after
/// it, or the error and the position where it stopped, or a panic of the parser.
pub enum PRes {
    Parsed(SNode, int),
    Failed(SParseError, int),
    Panic,
}

/// The out-of-bounds error the parser reports when it reads past its tokens.
pub open spec fn out_of_bounds(pos: int, len: int, caller: Seq<char>) -> SParseError {
    SParseError::AccessOutOfBoundsToken { position: pos as usize, total_tokens: len as usize, caller }
}

/// The token at `pos`, or the out-of-bounds error.
pub open spec fn tok_at(ts: Seq<SToken>, pos: int) -> Result<SToken, SParseError> {
    if 0 <= pos < ts.len() {
        Ok(ts[pos])
    } else {
        Err(out_of_bounds(pos, ts.len() as int, "current"@))
    }
}

/// The token after `pos`, or an empty end token.
pub open spec fn peek_tok(ts: Seq<SToken>, pos: int) -> SToken {
    if pos + 1 >= ts.len() || pos + 1 < 0 {
        stok(Seq::empty(), TokenKind::End)
    } else {
        ts[pos + 1]
    }
}

/// Consuming a token of the expected kind (for `BinaryOperator` and
/// `UnaryOperator`, any binary or unary connective): the position after it.
pub open spec fn consume_tok(ts: Seq<SToken>, pos: int, expect: TokenKind) -> Result<int, SParseError> {
    match tok_at(ts, pos) {
        Err(e) => Err(e),
        Ok(t) => {
            let ok = if expect == TokenKind::BinaryOperator {
                binary_operator_kind(t.kind)
            } else if expect == TokenKind::UnaryOperator {
                unary_operator_kind(t.kind)
            } else {
                t.kind == expect
            };
            if ok {
                Ok(pos + 1)
            } else {
                Err(SParseError::UnexpectedToken)
            }
        },
    }
}

/// An identifier node.
pub open spec fn ident_node(v: Seq<char>) -> SNode {
    SNode::Identifier { value: v }
}

/// A binary node.
pub open spec fn bin_node(l: SNode, op: OperatorKind, r: SNode) -> SNode {
    SNode::BinaryExpression { left: Box::new(l), operator: op, right: Box::new(r) }
}

/// Whether a position returned by a sub-parse lies after `pos` and within the tokens.
pub open spec fn advanced(pos: int, p: int, len: int) -> bool {
    pos < p <= len
}

/// Parsing an identifier token.
pub open spec fn p_identifier(ts: Seq<SToken>, pos: int) -> PRes {
    match tok_at(ts, pos) {
        Err(e) => PRes::Failed(e, pos),
        Ok(t) => if t.kind != TokenKind::Identifier {
            PRes::Failed(SParseError::UnexpectedToken, pos)
        } else {
            PRes::Parsed(ident_node(t.value), pos + 1)
        },
    }
}

/// Parsing a formula-variable token.
pub open spec fn p_wff(ts: Seq<SToken>, pos: int) -> PRes {
    match tok_at(ts, pos) {
        Err(e) => PRes::Failed(e, pos),
        Ok(t) => if t.kind != TokenKind::WFF {
            PRes::Failed(SParseError::UnexpectedToken, pos)
        } else {
            PRes::Parsed(ident_node(t.value), pos + 1)
        },
    }
}

/// Parsing a unary connective and its operand.
pub open spec fn p_unary(ts: Seq<SToken>, pos: int) -> PRes
    decreases ts.len() - pos, 0int,
{
    match tok_at(ts, pos) {
        Err(e) => PRes::Failed(e, pos),
        Ok(t) => if !unary_operator_kind(t.kind) {
            PRes::Failed(SParseError::UnexpectedToken, pos)
        } else {
            match operator_of_kind(t.kind) {
                None => PRes::Panic,
                Some(op) => match p_expr(ts, pos + 1) {
                    PRes::Parsed(r, p) => PRes::Parsed(SNode::UnaryExpression { operator: op, right: Box::new(r) }, p),
                    other => other,
                },
            }
        },
    }
}

/// Parsing the right side of an equality: a set variable is taken without
/// moving, anything else is an expression.
pub open spec fn p_eq_right(ts: Seq<SToken>, pos: int) -> PRes
    decreases ts.len() - pos, 2int,
{
    match tok_at(ts, pos) {
        Err(e) => PRes::Failed(e, pos),
        Ok(t) => if t.kind == TokenKind::SetVar {
            PRes::Parsed(ident_node(t.value), pos)
        } else {
            p_expr(ts, pos)
        },
    }
}

/// What follows an identifier or formula variable `atom` ending at `p1`.
pub open spec fn p_after_atom(ts: Seq<SToken>, atom: SNode, p1: int) -> PRes
    decreases ts.len() - p1, 3int,
{
    if p1 >= ts.len() || p1 < 0 {
        PRes::Parsed(atom, p1)
    } else if ts[p1].kind == TokenKind::RightParenthesis {
        PRes::Parsed(atom, p1 + 1)
    } else if binary_operator_kind(ts[p1].kind) {
        match operator_of_kind(ts[p1].kind) {
            None => PRes::Panic,
            Some(op) => {
                let r = if ts[p1].kind == TokenKind::Equality {
                    p_eq_right(ts, p1 + 1)
                } else {
                    p_expr(ts, p1 + 1)
                };
                match r {
                    PRes::Parsed(right, p) => PRes::Parsed(bin_node(atom, op, right), p),
                    other => other,
                }
            },
        }
    } else {
        PRes::Parsed(atom, p1)
    }
}

/// Parsing an expression of formulas.
pub open spec fn p_expr(ts: Seq<SToken>, pos: int) -> PRes
    decreases ts.len() - pos, 1int,
{
    match tok_at(ts, pos) {
        Err(e) => PRes::Failed(e, pos),
        Ok(t) => {
            if t.kind == TokenKind::LeftParenthesis {
                match p_expr(ts, pos + 1) {
                    PRes::Parsed(left, p2) => if !advanced(pos, p2, ts.len() as int) {
                        PRes::Panic
                    } else if p2 >= ts.len() {
                        PRes::Parsed(left, p2)
                    } else if binary_operator_kind(ts[p2].kind) {
                        match operator_of_kind(ts[p2].kind) {
                            None => PRes::Panic,
                            Some(op) => match p_expr(ts, p2 + 1) {
                                PRes::Parsed(right, p4) => PRes::Parsed(bin_node(left, op, right), p4),
                                other => other,
                            },
                        }
                    } else if peek_tok(ts, p2).kind == TokenKind::RightParenthesis {
                        if ts[p2].kind != TokenKind::RightParenthesis {
                            PRes::Failed(SParseError::UnexpectedToken, p2)
                        } else {
                            PRes::Parsed(left, p2 + 1)
                        }
                    } else {
                        PRes::Parsed(left, p2)
                    },
                    other => other,
                }
            } else if t.kind == TokenKind::Identifier {
                p_after_atom(ts, ident_node(t.value), pos + 1)
            } else if t.kind == TokenKind::UnaryOperator {
                match p_unary(ts, pos) {
                    PRes::Parsed(node, p1) => if !advanced(pos, p1, ts.len() as int) {
                        PRes::Panic
                    } else if binary_operator_kind(peek_tok(ts, p1).kind) {
                        match tok_at(ts, p1) {
                            Err(e) => PRes::Failed(e, p1),
                            Ok(o) => match operator_of_kind(o.kind) {
                                None => PRes::Panic,
                                Some(op) => match consume_tok(ts, p1, TokenKind::BinaryOperator) {
                                    Err(e) => PRes::Failed(e, p1),
                                    Ok(p2) => match p_expr(ts, p2) {
                                        PRes::Parsed(right, p3) => PRes::Parsed(bin_node(node, op, right), p3),
                                        other => other,
                                    },
                                },
                            },
                        }
                    } else {
                        PRes::Parsed(node, p1)
                    },
                    other => other,
                }
            } else if t.kind == TokenKind::ForAll || t.kind == TokenKind::Exists {
                let op = if t.kind == TokenKind::ForAll {
                    OperatorKind::ForAll
                } else {
                    OperatorKind::Exists
                };
                let p1 = pos + 1;
                match tok_at(ts, p1) {
                    Err(e) => PRes::Failed(e, p1),
                    Ok(v) => if v.kind != TokenKind::SetVar {
                        PRes::Failed(SParseError::UnexpectedToken, p1)
                    } else {
                        let first = ident_node(v.value);
                        let p2 = p1 + 1;
                        match tok_at(ts, p2) {
                            Err(e) => PRes::Failed(e, p2),
                            Ok(w) => if w.kind == TokenKind::WFF {
                                match p_wff(ts, p2) {
                                    PRes::Parsed(second, p3) => PRes::Parsed(bin_node(first, op, second), p3),
                                    other => other,
                                }
                            } else {
                                match p_expr(ts, p2) {
                                    PRes::Parsed(second, p3) => if t.kind == TokenKind::ForAll {
                                        PRes::Parsed(bin_node(first, op, second), p3)
                                    } else if !advanced(pos, p3, ts.len() as int) {
                                        PRes::Panic
                                    } else if binary_operator_kind(peek_tok(ts, p3).kind) {
                                        match consume_tok(ts, p3, TokenKind::RightParenthesis) {
                                            Err(e) => PRes::Failed(e, p3),
                                            Ok(p4) => match tok_at(ts, p4) {
                                                Err(e) => PRes::Failed(e, p4),
                                                Ok(o) => match operator_of_kind(o.kind) {
                                                    None => PRes::Panic,
                                                    Some(pop) => match consume_tok(ts, p4, TokenKind::BinaryOperator) {
                                                        Err(e) => PRes::Failed(e, p4),
                                                        Ok(p5) => match p_expr(ts, p5) {
                                                            PRes::Parsed(pr, p6) => PRes::Parsed(
                                                                bin_node(bin_node(first, op, second), pop, pr),
                                                                p6,
                                                            ),
                                                            other => other,
                                                        },
                                                    },
                                                },
                                            },
                                        }
                                    } else {
                                        PRes::Parsed(bin_node(first, op, second), p3)
                                    },
                                    other => other,
                                }
                            },
                        }
                    },
                }
            } else if t.kind == TokenKind::SetVar {
                let left = ident_node(t.value);
                let p1 = pos + 1;
                if p1 >= ts.len() {
                    PRes::Parsed(left, p1)
                } else {
                    match operator_of_kind(ts[p1].kind) {
                        None => PRes::Panic,
                        Some(op) => {
                            let p2 = p1 + 1;
                            match tok_at(ts, p2) {
                                Err(e) => PRes::Failed(e, p2),
                                Ok(r) => if r.kind != TokenKind::SetVar {
                                    PRes::Failed(SParseError::UnexpectedToken, p2)
                                } else {
                                    let parent_left = bin_node(left, op, ident_node(r.value));
                                    let p3 = p2 + 1;
                                    if p3 >= ts.len() {
                                        PRes::Parsed(parent_left, p3)
                                    } else if ts[p3].kind == TokenKind::RightParenthesis {
                                        PRes::Parsed(parent_left, p3 + 1)
                                    } else {
                                        match operator_of_kind(ts[p3].kind) {
                                            None => PRes::Panic,
                                            Some(pop) => if !binary_operator_kind(ts[p3].kind) {
                                                PRes::Failed(SParseError::UnexpectedToken, p3)
                                            } else {
                                                match p_expr(ts, p3 + 1) {
                                                    PRes::Parsed(pr, p5) => PRes::Parsed(bin_node(parent_left, pop, pr), p5),
                                                    other => other,
                                                }
                                            },
                                        }
                                    }
                                },
                            }
                        },
                    }
                }
            } else if t.kind == TokenKind::WFF {
                p_after_atom(ts, ident_node(t.value), pos + 1)
            } else if unary_operator_kind(t.kind) {
                p_unary(ts, pos)
            } else {
                PRes::Failed(SParseError::UnexpectedToken, pos)
            }
        },
    }
}

/// Parsing a quantifier (`∀` or `∃`): the bound variable and the expression.
pub open spec fn p_quantifier(ts: Seq<SToken>, pos: int, kind: TokenKind, op: OperatorKind) -> PRes {
    match consume_tok(ts, pos, kind) {
        Err(e) => PRes::Failed(e, pos),
        Ok(p1) => match tok_at(ts, p1) {
            Err(e) => PRes::Failed(e, p1),
            Ok(v) => match consume_tok(ts, p1, TokenKind::SetVar) {
                Err(e) => PRes::Failed(e, p1),
                Ok(p2) => match p_expr(ts, p2) {
                    PRes::Parsed(r, p3) => PRes::Parsed(bin_node(ident_node(v.value), op, r), p3),
                    other => other,
                },
            },
        },
    }
}

/// Parsing a whole formula: leading closing parentheses, implication arrows
/// and turnstiles are skipped; the first other token decides.
pub open spec fn p_formula(ts: Seq<SToken>, pos: int) -> PRes
    decreases ts.len() - pos,
{
    if pos >= ts.len() || pos < 0 {
        PRes::Failed(SParseError::EmptyNode, pos)
    } else {
        let k = ts[pos].kind;
        if k == TokenKind::LeftParenthesis || k == TokenKind::SetVar {
            p_expr(ts, pos)
        } else if k == TokenKind::RightParenthesis || k == TokenKind::Implies || k == TokenKind::Turnstile {
            p_formula(ts, pos + 1)
        } else if k == TokenKind::Identifier {
            if binary_operator_kind(peek_tok(ts, pos).kind) {
                let p1 = pos + 1;
                match operator_of_kind(ts[p1].kind) {
                    None => PRes::Panic,
                    Some(op) => match p_expr(ts, p1 + 1) {
                        PRes::Parsed(r, p) => PRes::Parsed(bin_node(ident_node(ts[pos].value), op, r), p),
                        other => other,
                    },
                }
            } else {
                PRes::Parsed(ident_node(ts[pos].value), pos)
            }
        } else if k == TokenKind::ForAll {
            p_quantifier(ts, pos, TokenKind::ForAll, OperatorKind::ForAll)
        } else if k == TokenKind::Exists {
            p_quantifier(ts, pos, TokenKind::Exists, OperatorKind::Exists)
        } else if k == TokenKind::WFF {
            p_wff(ts, pos)
        } else if unary_operator_kind(k) {
            p_unary(ts, pos)
        } else {
            PRes::Failed(SParseError::UnexpectedToken, pos)
        }
    }
}

} // verus!

verus! {

/// Whether a parse result, and the position the parser stopped at, are what
/// the model gives.
pub open spec fn outcome_is(res: Result<Node, ParseError>, at: int, r: PRes) -> bool {
    match r {
        PRes::Parsed(n, p) => res matches Ok(node) && node@ == n && at == p,
        PRes::Failed(e, p) => res matches Err(err) && err@ == e && at == p,
        PRes::Panic => false,
    }
}

/// The formula parser: the tokens of a formula and the position of the current one.
pub struct Parser {
    pub(crate) position: usize,
    pub(crate) tokens: Vec<Token>,
}

impl Parser {
    /// The models of the tokens.
    pub closed spec fn toks(&self) -> Seq<SToken> {
        tokens_view(self.tokens@)
    }

    /// The position of the current token.
    pub closed spec fn pos(&self) -> int {
        self.position as int
    }

    /// A parser over the tokens the default lexer makes of `input`.
    pub fn new(input: String) -> (res: Self)
        ensures
            res.toks() == default_lex(
                input@,
                (vstd::utf8::encode_utf8(input@).len() as usize) as int,
                0,
            ).0,
            res.pos() == 0,
    {
        let mut lexer = DefaultLexer::new(input);
        lexer.tokenize();
        let tokens = lexer.tokens();
        Self { position: 0, tokens }
    }

    /// A parser over the tokens the language lexer makes of `input`; the input
    /// must tokenize without error.
    pub fn new_mm(input: &str) -> (res: Self)
        requires
            lang_lex(input@, 0) is Done,
        ensures
            lang_lex(input@, 0) matches LangLexOutcome::Done(t) && res.toks() == t,
            res.pos() == 0,
    {
        let mut l = LangLexer::new(input);
        match l.tokenize() {
            Ok(_) => (),
            Err(_) => vstd::pervasive::unreached(),
        }
        let tokens = l.tokens();
        Self { position: 0, tokens }
    }

    /// The position of the current token.
    pub fn position(&self) -> (res: usize)
        ensures
            res == self.pos(),
    {
        self.position
    }

    /// The tokens being parsed.
    pub fn tokens(&self) -> (res: Vec<Token>)
        ensures
            tokens_view(res@) == self.toks(),
    {
        let mut res: Vec<Token> = Vec::new();
        let mut i: usize = 0;
        while i < self.tokens.len()
            invariant
                i <= self.tokens.len(),
                res@ == self.tokens@.subrange(0, i as int),
            decreases self.tokens.len() - i,
        {
            res.push(self.tokens[i].clone());
            i += 1;
            assert(res@ =~= self.tokens@.subrange(0, i as int));
        }
        assert(res@ =~= self.tokens@);
        res
    }

    fn advance(&mut self)
        requires
            old(self).pos() < old(self).toks().len(),
        ensures
            final(self).pos() == old(self).pos() + 1,
            final(self).toks() == old(self).toks(),
    {
        assert(self.toks().len() == self.tokens@.len());
        assert(self.position < self.tokens.len());
        self.position += 1;
    }

    fn current(&self) -> (res: Result<Token, ParseError>)
        ensures
            match tok_at(self.toks(), self.pos()) {
                Ok(t) => res matches Ok(tk) && tk@ == t,
                Err(e) => res matches Err(err) && err@ == e,
            },
    {
        if self.position < self.tokens.len() {
            Ok(self.tokens[self.position].clone())
        } else {
            Err(
                ParseError::AccessOutOfBoundsToken {
                    position: self.position,
                    total_tokens: self.tokens.len(),
                    caller: owned("current"),
                },
            )
        }
    }

    fn peek(&self) -> (res: Token)
        ensures
            res@ == peek_tok(self.toks(), self.pos()),
    {
        if self.position >= self.tokens.len() || self.position + 1 >= self.tokens.len() {
            return Token { value: String::new(), kind: TokenKind::End };
        }
        self.tokens[self.position + 1].clone()
    }

    fn consume(&mut self, expect: TokenKind) -> (res: Result<(), ParseError>)
        ensures
            final(self).toks() == old(self).toks(),
            match consume_tok(old(self).toks(), old(self).pos(), expect) {
                Ok(p) => res is Ok && final(self).pos() == p,
                Err(e) => res matches Err(err) && err@ == e && final(self).pos() == old(
                    self,
                ).pos(),
            },
    {
        let current = self.current()?;
        if expect == TokenKind::BinaryOperator {
            if !current.kind.is_binary_operator() {
                return Err(ParseError::UnexpectedToken);
            }
            self.advance();
            return Ok(());
        } else if expect == TokenKind::UnaryOperator {
            if !current.kind.is_unary_operator() {
                return Err(ParseError::UnexpectedToken);
            }
            self.advance();
            return Ok(());
        }
        if current.kind != expect {
            return Err(ParseError::UnexpectedToken);
        }
        self.advance();
        Ok(())
    }

    fn get_operator(&self) -> (res: Result<TokenKind, ParseError>)
        ensures
            match tok_at(self.toks(), self.pos()) {
                Ok(t) => res == Ok::<TokenKind, ParseError>(t.kind),
                Err(e) => res matches Err(err) && err@ == e,
            },
    {
        match self.current() {
            Ok(token) => Ok(token.kind),
            Err(e) => Err(e),
        }
    }

    fn parse_identifier(&mut self) -> (res: Result<Node, ParseError>)
        ensures
            final(self).toks() == old(self).toks(),
            outcome_is(res, final(self).pos(), p_identifier(old(self).toks(), old(self).pos())),
    {
        let current = self.current()?;
        if current.kind != TokenKind::Identifier {
            return Err(ParseError::UnexpectedToken);
        }
        let identifier = Node::Identifier { value: current.value };
        self.consume(TokenKind::Identifier)?;
        Ok(identifier)
    }

    fn parse_wff(&mut self) -> (res: Result<Node, ParseError>)
        ensures
            final(self).toks() == old(self).toks(),
            outcome_is(res, final(self).pos(), p_wff(old(self).toks(), old(self).pos())),
    {
        let current = self.current()?;
        if current.kind != TokenKind::WFF {
            return Err(ParseError::UnexpectedToken);
        }
        let identifier = Node::Identifier { value: current.value };
        self.consume(TokenKind::WFF)?;
        Ok(identifier)
    }

    fn is_unary_expression(&self) -> (res: bool)
        ensures
            res == (tok_at(self.toks(), self.pos()) matches Ok(t) && unary_operator_kind(t.kind)),
    {
        if let Ok(current) = self.current() {
            return current.kind.is_unary_operator();
        }
        false
    }

    fn is_binary_expression(&self) -> (res: bool)
        ensures
            res == (tok_at(self.toks(), self.pos()) matches Ok(t) && t.kind == TokenKind::Identifier
                && binary_operator_kind(peek_tok(self.toks(), self.pos()).kind)),
    {
        if let Ok(current) = self.current() {
            current.kind == TokenKind::Identifier && self.peek().kind.is_binary_operator()
        } else {
            false
        }
    }

    /// Parses a whole formula: leading closing parentheses, implication arrows
    /// and turnstiles are skipped, and the first other token decides what
    /// follows. Past the last token the result is `EmptyNode`.
    pub fn parse(&mut self) -> (res: Result<Node, ParseError>)
        requires
            !(p_formula(old(self).toks(), old(self).pos()) is Panic),
        ensures
            final(self).toks() == old(self).toks(),
            outcome_is(res, final(self).pos(), p_formula(old(self).toks(), old(self).pos())),
    {
        let ghost ts = self.toks();
        let ghost goal = p_formula(ts, self.pos());
        while self.position < self.tokens.len()
            invariant
                ts == old(self).toks(),
                goal == p_formula(old(self).toks(), old(self).pos()),
                self.toks() == ts,
                p_formula(ts, self.pos()) == goal,
                !(goal is Panic),
            decreases ts.len() - self.pos(),
        {
            match self.tokens[self.position].kind {
                TokenKind::LeftParenthesis => {
                    return self.parse_expression();
                },
                TokenKind::RightParenthesis => {},
                TokenKind::Implies => {},
                TokenKind::Identifier => {
                    if self.peek().kind.is_binary_operator() {
                        let left = self.parse_identifier()?;
                        let operator = self.get_operator()?;
                        let operator_kind = token_kind_to_operator_kind(operator).expect(
                            "Failed to convert token kind to operator kind",
                        );
                        self.consume(TokenKind::BinaryOperator)?;
                        let right = self.parse_expression()?;
                        return Ok(
                            Node::BinaryExpression {
                                left: Box::new(left),
                                operator: operator_kind,
                                right: Box::new(right),
                            },
                        );
                    }
                    return Ok(Node::Identifier { value: self.current()?.value });
                },
                TokenKind::ForAll => {
                    return self.parse_for_all();
                },
                TokenKind::Exists => {
                    return self.parse_exists();
                },
                TokenKind::Turnstile => {},
                TokenKind::WFF => {
                    return self.parse_wff();
                },
                TokenKind::SetVar => {
                    return self.parse_expression();
                },
                _ => {
                    if self.current()?.kind.is_unary_operator() {
                        let node = self.parse_unary_expression()?;
                        return Ok(node);
                    }
                    return Err(ParseError::UnexpectedToken);
                },
            }
            self.advance();
        }
        Err(ParseError::EmptyNode)
    }

    /// What follows an identifier or a formula variable: a closing parenthesis
    /// (consumed), or a binary connective and its right side.
    fn parse_after_atom(&mut self, atom: Node) -> (res: Result<Node, ParseError>)
        requires
            !(p_after_atom(old(self).toks(), atom@, old(self).pos()) is Panic),
        ensures
            final(self).toks() == old(self).toks(),
            outcome_is(
                res,
                final(self).pos(),
                p_after_atom(old(self).toks(), atom@, old(self).pos()),
            ),
        decreases old(self).toks().len() - old(self).pos(), 3int,
    {
        if self.position >= self.tokens.len() {
            return Ok(atom);
        }
        if self.current()?.kind == TokenKind::RightParenthesis {
            self.consume(TokenKind::RightParenthesis)?;
            return Ok(atom);
        }
        if self.current()?.kind.is_binary_operator() {
            let operator = self.get_operator()?;
            let operator_kind = token_kind_to_operator_kind(operator).expect(
                "Failed to convert token kind to operator kind",
            );
            self.consume(TokenKind::BinaryOperator)?;
            if operator == TokenKind::Equality {
                let right = self.parse_equality_right()?;
                return Ok(
                    Node::BinaryExpression {
                        left: Box::new(atom),
                        operator: operator_kind,
                        right: Box::new(right),
                    },
                );
            }
            let right = self.parse_expression()?;
            return Ok(
                Node::BinaryExpression {
                    left: Box::new(atom),
                    operator: operator_kind,
                    right: Box::new(right),
                },
            );
        }
        Ok(atom)
    }

    fn parse_expression(&mut self) -> (res: Result<Node, ParseError>)
        requires
            !(p_expr(old(self).toks(), old(self).pos()) is Panic),
        ensures
            final(self).toks() == old(self).toks(),
            outcome_is(res, final(self).pos(), p_expr(old(self).toks(), old(self).pos())),
        decreases old(self).toks().len() - old(self).pos(), 1int,
    {
        match self.current()?.kind {
            TokenKind::LeftParenthesis => self.parse_parenthesized(),
            TokenKind::Identifier => {
                let ident = self.parse_identifier()?;
                self.parse_after_atom(ident)
            },
            TokenKind::UnaryOperator => {
                let node = self.parse_unary_expression()?;
                if self.peek().kind.is_binary_operator() {
                    let operator = self.get_operator()?;
                    let operator_kind = token_kind_to_operator_kind(operator).expect(
                        "Failed to convert token kind to operator kind",
                    );
                    self.consume(TokenKind::BinaryOperator)?;
                    let right = self.parse_expression()?;
                    return Ok(
                        Node::BinaryExpression {
                            left: Box::new(node),
                            operator: operator_kind,
                            right: Box::new(right),
                        },
                    );
                }
                Ok(node)
            },
            TokenKind::ForAll => self.parse_for_all_expression(),
            TokenKind::Exists => self.parse_exists_expression(),
            TokenKind::SetVar => self.parse_setvar_expression(),
            TokenKind::WFF => {
                let ident = self.parse_wff()?;
                self.parse_after_atom(ident)
            },
            _ => {
                if self.current()?.kind.is_unary_operator() {
                    let node = self.parse_unary_expression()?;
                    return Ok(node);
                }
                Err(ParseError::UnexpectedToken)
            },
        }
    }

    fn parse_parenthesized(&mut self) -> (res: Result<Node, ParseError>)
        requires
            !(p_expr(old(self).toks(), old(self).pos()) is Panic),
            tok_at(old(self).toks(), old(self).pos()) matches Ok(t) && t.kind == TokenKind::LeftParenthesis,
        ensures
            final(self).toks() == old(self).toks(),
            outcome_is(res, final(self).pos(), p_expr(old(self).toks(), old(self).pos())),
        decreases old(self).toks().len() - old(self).pos(), 0int,
    {
        self.consume(TokenKind::LeftParenthesis)?;
        let left = self.parse_expression()?;
        if self.position >= self.tokens.len() {
            return Ok(left);
        }
        if self.current()?.kind.is_binary_operator() {
            let operator = self.get_operator()?;
            let operator_kind = token_kind_to_operator_kind(operator).expect(
                "Failed to convert token kind to operator kind",
            );
            self.consume(TokenKind::BinaryOperator)?;
            let right = self.parse_expression()?;
            Ok(
                Node::BinaryExpression {
                    left: Box::new(left),
                    operator: operator_kind,
                    right: Box::new(right),
                },
            )
        } else if self.peek().kind == TokenKind::RightParenthesis {
            self.consume(TokenKind::RightParenthesis)?;
            Ok(left)
        } else {
            Ok(left)
        }
    }

    fn parse_for_all_expression(&mut self) -> (res: Result<Node, ParseError>)
        requires
            !(p_expr(old(self).toks(), old(self).pos()) is Panic),
            tok_at(old(self).toks(), old(self).pos()) matches Ok(t) && t.kind == TokenKind::ForAll,
        ensures
            final(self).toks() == old(self).toks(),
            outcome_is(res, final(self).pos(), p_expr(old(self).toks(), old(self).pos())),
        decreases old(self).toks().len() - old(self).pos(), 0int,
    {
        let ghost ts = self.toks();
        let ghost pos = self.pos();
        let operator = self.get_operator()?;
        let operator_kind = token_kind_to_operator_kind(operator).expect(
            "Failed to convert token kind to operator kind",
        );
        self.consume(TokenKind::ForAll)?;
        let first = Node::Identifier { value: self.current()?.value };
        assert(tok_at(ts, pos + 1) matches Ok(v) && first@ == ident_node(v.value));
        self.consume(TokenKind::SetVar)?;
        if self.current()?.kind == TokenKind::WFF {
            let second = self.parse_wff()?;
            assert(p_wff(ts, pos + 2) matches PRes::Parsed(r, p3) && second@ == r);
            return Ok(
                Node::BinaryExpression {
                    left: Box::new(first),
                    operator: operator_kind,
                    right: Box::new(second),
                },
            );
        }
        let second = self.parse_expression()?;
        let ghost p3 = self.pos();
        assert(p_expr(ts, pos + 2) matches PRes::Parsed(r, q) && second@ == r && q == p3);
        Ok(
            Node::BinaryExpression {
                left: Box::new(first),
                operator: operator_kind,
                right: Box::new(second),
            },
        )
    }

    fn parse_exists_expression(&mut self) -> (res: Result<Node, ParseError>)
        requires
            !(p_expr(old(self).toks(), old(self).pos()) is Panic),
            tok_at(old(self).toks(), old(self).pos()) matches Ok(t) && t.kind == TokenKind::Exists,
        ensures
            final(self).toks() == old(self).toks(),
            outcome_is(res, final(self).pos(), p_expr(old(self).toks(), old(self).pos())),
        decreases old(self).toks().len() - old(self).pos(), 0int,
    {
        let ghost ts = self.toks();
        let ghost pos = self.pos();
        let operator = self.get_operator()?;
        let operator_kind = token_kind_to_operator_kind(operator).expect(
            "Failed to convert token kind to operator kind",
        );
        self.consume(TokenKind::Exists)?;
        let first = Node::Identifier { value: self.current()?.value };
        assert(tok_at(ts, pos + 1) matches Ok(v) && first@ == ident_node(v.value));
        self.consume(TokenKind::SetVar)?;
        if self.current()?.kind == TokenKind::WFF {
            let second = self.parse_wff()?;
            assert(p_wff(ts, pos + 2) matches PRes::Parsed(r, p3) && second@ == r);
            return Ok(
                Node::BinaryExpression {
                    left: Box::new(first),
                    operator: operator_kind,
                    right: Box::new(second),
                },
            );
        }
        let second = self.parse_expression()?;
        let ghost p3 = self.pos();
        assert(p_expr(ts, pos + 2) matches PRes::Parsed(r, q) && second@ == r && q == p3);
        if self.peek().kind.is_binary_operator() {
            self.consume(TokenKind::RightParenthesis)?;
            let parent_left = Node::BinaryExpression {
                left: Box::new(first),
                operator: operator_kind,
                right: Box::new(second),
            };
            let parent_operator = self.get_operator()?;
            let parent_operator_kind = token_kind_to_operator_kind(parent_operator).expect(
                "Failed to convert token kind to operator kind",
            );
            self.consume(TokenKind::BinaryOperator)?;
            let parent_right = self.parse_expression()?;
            assert(p_expr(ts, p3 + 2) matches PRes::Parsed(r, q) && parent_right@ == r);
            assert(operator_of_kind(ts[p3 + 1].kind) == Some(parent_operator_kind));
            assert(parent_left@ == bin_node(first@, operator_kind, second@));
            return Ok(
                Node::BinaryExpression {
                    left: Box::new(parent_left),
                    operator: parent_operator_kind,
                    right: Box::new(parent_right),
                },
            );
        }
        Ok(
            Node::BinaryExpression {
                left: Box::new(first),
                operator: operator_kind,
                right: Box::new(second),
            },
        )
    }

    fn parse_setvar_expression(&mut self) -> (res: Result<Node, ParseError>)
        requires
            !(p_expr(old(self).toks(), old(self).pos()) is Panic),
            tok_at(old(self).toks(), old(self).pos()) matches Ok(t) && t.kind == TokenKind::SetVar,
        ensures
            final(self).toks() == old(self).toks(),
            outcome_is(res, final(self).pos(), p_expr(old(self).toks(), old(self).pos())),
        decreases old(self).toks().len() - old(self).pos(), 0int,
    {
        let ghost ts = self.toks();
        let ghost pos = self.pos();
        let left = Node::Identifier { value: self.current()?.value };
        assert(left@ == ident_node(ts[pos].value));
        self.consume(TokenKind::SetVar)?;
        if self.position >= self.tokens.len() {
            return Ok(left);
        }
        let operator = self.get_operator()?;
        let operator_kind = token_kind_to_operator_kind(operator).expect(
            "Failed to convert token kind to operator kind",
        );
        self.advance();
        let right = Node::Identifier { value: self.current()?.value };
        assert(right@ == ident_node(ts[pos + 2].value));
        self.consume(TokenKind::SetVar)?;
        let parent_left = Node::BinaryExpression {
            left: Box::new(left),
            operator: operator_kind,
            right: Box::new(right),
        };
        if self.position >= self.tokens.len() {
            return Ok(parent_left);
        } else if self.current()?.kind == TokenKind::RightParenthesis {
            self.consume(TokenKind::RightParenthesis)?;
            return Ok(parent_left);
        }
        let parent_op = self.get_operator()?;
        let parent_op_kind = token_kind_to_operator_kind(parent_op).expect(
            "Failed to convert token kind to operator kind",
        );
        self.consume(TokenKind::BinaryOperator)?;
        let parent_right = self.parse_expression()?;
        assert(p_expr(ts, pos + 4) matches PRes::Parsed(r, q) && parent_right@ == r);
        assert(operator_of_kind(ts[pos + 1].kind) == Some(operator_kind));
        assert(operator_of_kind(ts[pos + 3].kind) == Some(parent_op_kind));
        assert(parent_left@ == bin_node(left@, operator_kind, right@));
        Ok(
            Node::BinaryExpression {
                left: Box::new(parent_left),
                operator: parent_op_kind,
                right: Box::new(parent_right),
            },
        )
    }

    fn parse_for_all(&mut self) -> (res: Result<Node, ParseError>)
        requires
            !(p_quantifier(old(self).toks(), old(self).pos(), TokenKind::ForAll, OperatorKind::ForAll) is Panic),
            tok_at(old(self).toks(), old(self).pos()) matches Ok(t) && t.kind == TokenKind::ForAll,
        ensures
            final(self).toks() == old(self).toks(),
            outcome_is(
                res,
                final(self).pos(),
                p_quantifier(old(self).toks(), old(self).pos(), TokenKind::ForAll, OperatorKind::ForAll),
            ),
    {
        let operator = self.get_operator()?;
        let operator_kind = token_kind_to_operator_kind(operator).expect(
            "Failed to convert token kind to operator kind",
        );
        let ghost ts = self.toks();
        let ghost pos = self.pos();
        self.consume(TokenKind::ForAll)?;
        let left = Node::Identifier { value: self.current()?.value };
        assert(tok_at(ts, pos + 1) matches Ok(v) && left@ == ident_node(v.value));
        self.consume(TokenKind::SetVar)?;
        let right = self.parse_expression()?;
        assert(p_expr(ts, pos + 2) matches PRes::Parsed(r, p3) && right@ == r);
        Ok(Node::BinaryExpression { left: Box::new(left), operator: operator_kind, right: Box::new(right) })
    }

    fn parse_exists(&mut self) -> (res: Result<Node, ParseError>)
        requires
            !(p_quantifier(old(self).toks(), old(self).pos(), TokenKind::Exists, OperatorKind::Exists) is Panic),
            tok_at(old(self).toks(), old(self).pos()) matches Ok(t) && t.kind == TokenKind::Exists,
        ensures
            final(self).toks() == old(self).toks(),
            outcome_is(
                res,
                final(self).pos(),
                p_quantifier(old(self).toks(), old(self).pos(), TokenKind::Exists, OperatorKind::Exists),
            ),
    {
        let operator = self.get_operator()?;
        let operator_kind = token_kind_to_operator_kind(operator).expect(
            "Failed to convert token kind to operator kind",
        );
        let ghost ts = self.toks();
        let ghost pos = self.pos();
        self.consume(TokenKind::Exists)?;
        let left = Node::Identifier { value: self.current()?.value };
        assert(tok_at(ts, pos + 1) matches Ok(v) && left@ == ident_node(v.value));
        self.consume(TokenKind::SetVar)?;
        let right = self.parse_expression()?;
        assert(p_expr(ts, pos + 2) matches PRes::Parsed(r, p3) && right@ == r);
        Ok(Node::BinaryExpression { left: Box::new(left), operator: operator_kind, right: Box::new(right) })
    }

    fn parse_equality_right(&mut self) -> (res: Result<Node, ParseError>)
        requires
            !(p_eq_right(old(self).toks(), old(self).pos()) is Panic),
        ensures
            final(self).toks() == old(self).toks(),
            outcome_is(res, final(self).pos(), p_eq_right(old(self).toks(), old(self).pos())),
        decreases old(self).toks().len() - old(self).pos(), 2int,
    {
        if self.current()?.kind == TokenKind::SetVar {
            let right = Node::Identifier { value: self.current()?.value };
            return Ok(right);
        }
        let right = self.parse_expression()?;
        Ok(right)
    }

    fn parse_unary_expression(&mut self) -> (res: Result<Node, ParseError>)
        requires
            !(p_unary(old(self).toks(), old(self).pos()) is Panic),
        ensures
            final(self).toks() == old(self).toks(),
            outcome_is(res, final(self).pos(), p_unary(old(self).toks(), old(self).pos())),
        decreases old(self).toks().len() - old(self).pos(), 0int,
    {
        if !self.current()?.kind.is_unary_operator() {
            return Err(ParseError::UnexpectedToken);
        }
        let operator = self.get_operator()?;
        let operator_kind = token_kind_to_operator_kind(operator).expect(
            "Failed to convert token kind to operator kind",
        );
        self.consume(TokenKind::UnaryOperator)?;
        let right = self.parse_expression()?;
        Ok(Node::UnaryExpression { operator: operator_kind, right: Box::new(right) })
    }

}

} // verus!

verus! {

/// How a parse error is displayed.
pub open spec fn parse_error_text(e: SParseError) -> Seq<char> {
    match e {
        SParseError::UnexpectedToken => "Unexpected token"@,
        SParseError::EmptyNode => "Empty node"@,
        SParseError::AccessOutOfBoundsToken { position, total_tokens, caller } =>
            "Access out of bounds token; called by "@ + caller + " at position "@ + nat_digits(
            position as nat,
            10,
        ) + " with total tokens "@ + nat_digits(total_tokens as nat, 10),
        SParseError::UnhandledBehaviour => "Unhandled behaviour"@,
        SParseError::UnclosedParenthesis => "Unclosed parenthesis"@,
    }
}

impl ParseError {
    /// The display text of the error (see [`parse_error_text`]).
    pub fn to_string(&self) -> (res: String)
        ensures
            res@ == parse_error_text(self@),
    {
        match self {
            ParseError::UnexpectedToken => owned("Unexpected token"),
            ParseError::EmptyNode => owned("Empty node"),
            ParseError::AccessOutOfBoundsToken { position, total_tokens, caller } => {
                let mut res = owned("Access out of bounds token; called by ");
                push_all(&mut res, caller.as_str());
                push_all(&mut res, " at position ");
                let p = usize_to_string(*position);
                push_all(&mut res, p.as_str());
                push_all(&mut res, " with total tokens ");
                let t = usize_to_string(*total_tokens);
                push_all(&mut res, t.as_str());
                res
            },
            ParseError::UnhandledBehaviour => owned("Unhandled behaviour"),
            ParseError::UnclosedParenthesis => owned("Unclosed parenthesis"),
        }
    }
}

} // verus!

verus! {

/// Parsing a set variable, alone, before a `)` (which is consumed), or as the
/// left side of a binary connective; after the connective a set variable is
/// taken without being consumed and anything else is parsed as an expression.
pub open spec fn p_setvar(ts: Seq<SToken>, pos: int) -> PRes {
    match tok_at(ts, pos) {
        Err(e) => PRes::Failed(e, pos),
        Ok(t) => if t.kind != TokenKind::SetVar {
            PRes::Failed(SParseError::UnexpectedToken, pos)
        } else {
            let left = ident_node(t.value);
            let p1 = pos + 1;
            if p1 >= ts.len() {
                PRes::Parsed(left, p1)
            } else if ts[p1].kind == TokenKind::RightParenthesis {
                PRes::Parsed(left, p1 + 1)
            } else if binary_operator_kind(ts[p1].kind) {
                match operator_of_kind(ts[p1].kind) {
                    None => PRes::Panic,
                    Some(op) => match tok_at(ts, p1 + 1) {
                        Err(e) => PRes::Failed(e, p1 + 1),
                        Ok(r) => if r.kind == TokenKind::SetVar {
                            PRes::Parsed(bin_node(left, op, ident_node(r.value)), p1 + 1)
                        } else {
                            match p_expr(ts, p1 + 1) {
                                PRes::Parsed(rn, p3) => PRes::Parsed(bin_node(left, op, rn), p3),
                                other => other,
                            }
                        },
                    },
                }
            } else {
                PRes::Parsed(left, p1)
            }
        },
    }
}

/// Parsing `x op y` where `x` is an identifier: `y` is a parenthesized
/// expression, a unary connective with its operand, or an identifier. A
/// first token that is no identifier, or an operator without a node
/// operator, panics.
pub open spec fn p_binary_expr(ts: Seq<SToken>, pos: int) -> PRes {
    match tok_at(ts, pos) {
        Err(e) => PRes::Failed(e, pos),
        Ok(t) => if t.kind != TokenKind::Identifier {
            PRes::Panic
        } else {
            let left = ident_node(t.value);
            let p1 = pos + 1;
            match tok_at(ts, p1) {
                Err(e) => PRes::Failed(e, p1),
                Ok(o) => match operator_of_kind(o.kind) {
                    None => PRes::Panic,
                    Some(op) => if !binary_operator_kind(o.kind) {
                        PRes::Failed(SParseError::UnexpectedToken, p1)
                    } else {
                        let p2 = p1 + 1;
                        if p2 >= ts.len() {
                            PRes::Failed(
                                out_of_bounds(p2, ts.len() as int, "parse_binary_expression"@),
                                p2,
                            )
                        } else if ts[p2].kind == TokenKind::LeftParenthesis {
                            match p_expr(ts, p2) {
                                PRes::Parsed(r, p3) => PRes::Parsed(bin_node(left, op, r), p3),
                                other => other,
                            }
                        } else if unary_operator_kind(ts[p2].kind) {
                            match p_unary(ts, p2) {
                                PRes::Parsed(r, p3) => PRes::Parsed(bin_node(left, op, r), p3),
                                other => other,
                            }
                        } else if ts[p2].kind != TokenKind::Identifier {
                            PRes::Failed(SParseError::UnexpectedToken, p2)
                        } else {
                            PRes::Parsed(bin_node(left, op, ident_node(ts[p2].value)), p2 + 1)
                        }
                    },
                },
            }
        },
    }
}

impl Parser {
    /// Parses a set variable and what follows it (see [`p_setvar`]).
    fn parse_setvar(&mut self) -> (res: Result<Node, ParseError>)
        requires
            !(p_setvar(old(self).toks(), old(self).pos()) is Panic),
        ensures
            final(self).toks() == old(self).toks(),
            outcome_is(res, final(self).pos(), p_setvar(old(self).toks(), old(self).pos())),
    {
        proof {
            reveal_with_fuel(crate::node::view_node, 2);
        }
        if self.current()?.kind != TokenKind::SetVar {
            return Err(ParseError::UnexpectedToken);
        }
        let left = Node::Identifier { value: self.current()?.value };
        self.consume(TokenKind::SetVar)?;
        if self.position >= self.tokens.len() {
            return Ok(left);
        }
        if self.current()?.kind == TokenKind::RightParenthesis {
            self.consume(TokenKind::RightParenthesis)?;
            return Ok(left);
        }
        if self.current()?.kind.is_binary_operator() {
            let operator = self.get_operator()?;
            let operator_kind = token_kind_to_operator_kind(operator).expect(
                "Failed to convert token kind to operator kind",
            );
            self.consume(TokenKind::BinaryOperator)?;
            if self.current()?.kind == TokenKind::SetVar {
                let right = Node::Identifier { value: self.current()?.value };
                return Ok(
                    Node::BinaryExpression {
                        left: Box::new(left),
                        operator: operator_kind,
                        right: Box::new(right),
                    },
                );
            }
            let right = self.parse_expression()?;
            return Ok(
                Node::BinaryExpression { left: Box::new(left), operator: operator_kind, right: Box::new(right) },
            );
        }
        Ok(left)
    }

    /// Parses an identifier, a binary connective and its right side (see
    /// [`p_binary_expr`]).
    fn parse_binary_expression(&mut self) -> (res: Result<Node, ParseError>)
        requires
            !(p_binary_expr(old(self).toks(), old(self).pos()) is Panic),
        ensures
            final(self).toks() == old(self).toks(),
            outcome_is(res, final(self).pos(), p_binary_expr(old(self).toks(), old(self).pos())),
    {
        proof {
            reveal_with_fuel(crate::node::view_node, 2);
        }
        if self.current()?.kind != TokenKind::Identifier {
            return vstd::pervasive::unreached();
        }
        let left_node = Node::Identifier { value: self.current()?.value };
        self.consume(TokenKind::Identifier)?;
        let operator = self.get_operator()?;
        let operator_kind = token_kind_to_operator_kind(operator).expect(
            "Failed to convert token kind to operator kind",
        );
        self.consume(TokenKind::BinaryOperator)?;
        if self.position >= self.tokens.len() {
            return Err(
                ParseError::AccessOutOfBoundsToken {
                    position: self.position,
                    total_tokens: self.tokens.len(),
                    caller: owned("parse_binary_expression"),
                },
            );
        }
        if self.current()?.kind == TokenKind::LeftParenthesis {
            let right = self.parse_expression()?;
            return Ok(
                Node::BinaryExpression { left: Box::new(left_node), operator: operator_kind, right: Box::new(right) },
            );
        }
        let right_node = Node::Identifier { value: self.current()?.value };
        if self.current()?.kind.is_unary_operator() {
            let right = self.parse_unary_expression()?;
            return Ok(
                Node::BinaryExpression { left: Box::new(left_node), operator: operator_kind, right: Box::new(right) },
            );
        }
        self.consume(TokenKind::Identifier)?;
        Ok(
            Node::BinaryExpression {
                left: Box::new(left_node),
                operator: operator_kind,
                right: Box::new(right_node),
            },
        )
    }
}

} // verus!
