//! Tokens, and the default lexer for formulas such as `(A -> B)`.
use vstd::prelude::*;
use crate::parser::Lexer;
use crate::text::{
    char_or, is_alphabetic_char, is_alphanumeric_char, string_push, char_to_string,
    char_is_alphabetic, char_is_alphanumeric, owned, chars_of,
};

verus! {

/// A lexical token.
#[derive(Debug)]
pub struct Token {
    pub value: String,
    pub kind: TokenKind,
}

/// The kinds of tokens the lexers produce and the parsers expect.
#[derive(Debug, Clone, Copy, PartialEq, Eq, Structural)]
pub enum TokenKind {
    Number,
    Operator,
    BinaryOperator,
    UnaryOperator,
    LeftParenthesis,
    RightParenthesis,
    Whitespace,
    Identifier,
    End,
    Pipe,
    Comment,
    WFF,
    SetVar,
    Implies,
    Negation,
    Turnstile,
    And,
    ForAll,
    Exists,
    BoundX,
    Phi,
    Psi,
    Chi,
    HypothesisConjunction,
    HypothesisEnd,
    Equality,
    ElementOf,
    Biconditional,
    Conjunction,
    Disjunction,
    Subset,
    Equinumerosity,
    Print,
    Word,
    String,
    Semicolon,
    Type,
    Let,
    Colon,
    Nat,
    MMExpression,
    Add,
    Subtract,
    Multiply,
    Divide,
    Modulo,
    BitwiseAnd,
    BitwiseOr,
    BitwiseXor,
    ShiftLeft,
    ShiftRight,
    Or,
    LessThan,
    GreaterThan,
    Comma,
    Period,
    LBracket,
    RBracket,
    LCurlyBracket,
    RCurlyBracket,
    Range,
    IsEqual,
    EOF,
}

/// The model of a token: its text and its kind.
pub struct SToken {
    pub value: Seq<char>,
    pub kind: TokenKind,
}

impl View for Token {
    type V = SToken;

    open spec fn view(&self) -> SToken {
        SToken { value: self.value@, kind: self.kind }
    }
}

impl Clone for Token {
    fn clone(&self) -> (res: Self)
        ensures
            res == *self,
    {
        Token { value: self.value.clone(), kind: self.kind }
    }
}

/// The models of a list of tokens.
pub open spec fn tokens_view(ts: Seq<Token>) -> Seq<SToken> {
    ts.map_values(|t: Token| t@)
}

/// A token model from its text and kind.
pub open spec fn stok(value: Seq<char>, kind: TokenKind) -> SToken {
    SToken { value, kind }
}

/// Kinds that stand for binary connectives of formulas.
pub open spec fn binary_operator_kind(k: TokenKind) -> bool {
    match k {
        TokenKind::Implies | TokenKind::ForAll | TokenKind::Equality | TokenKind::ElementOf
        | TokenKind::Biconditional | TokenKind::Conjunction | TokenKind::Disjunction => true,
        _ => false,
    }
}

/// Kinds that stand for unary connectives of formulas.
pub open spec fn unary_operator_kind(k: TokenKind) -> bool {
    match k {
        TokenKind::UnaryOperator | TokenKind::Negation => true,
        _ => false,
    }
}

impl TokenKind {
    /// Whether the kind is a binary connective.
    pub fn is_binary_operator(&self) -> (res: bool)
        ensures
            res == binary_operator_kind(*self),
    {
        match self {
            TokenKind::Implies => true,
            TokenKind::ForAll => true,
            TokenKind::Equality => true,
            TokenKind::ElementOf => true,
            TokenKind::Biconditional => true,
            TokenKind::Conjunction => true,
            TokenKind::Disjunction => true,
            _ => false,
        }
    }

    /// Whether the kind is a unary connective.
    pub fn is_unary_operator(&self) -> (res: bool)
        ensures
            res == unary_operator_kind(*self),
    {
        match self {
            TokenKind::UnaryOperator => true,
            TokenKind::Negation => true,
            _ => false,
        }
    }
}

/// The last position of the run of alphabetic characters that follows `p`
/// (`p` itself when the next character is not alphabetic).
pub open spec fn alpha_run_end(chars: Seq<char>, p: int) -> int
    decreases chars.len() - p,
{
    if 0 <= p && p + 1 < chars.len() && is_alphabetic_char(chars[p + 1]) {
        alpha_run_end(chars, p + 1)
    } else {
        p
    }
}

/// What the default lexer does with the character `c` at position `pos`: the
/// tokens it emits and the position it has reached.
pub open spec fn default_lex_char(chars: Seq<char>, pos: int, c: char) -> (Seq<SToken>, int) {
    let peek = char_or(chars, pos + 1, ' ');
    let one = seq![c];
    if c == ' ' {
        (seq![], pos)
    } else if c == '(' {
        (seq![stok(one, TokenKind::LeftParenthesis)], pos)
    } else if c == ')' {
        (seq![stok(one, TokenKind::RightParenthesis)], pos)
    } else if c == '|' {
        if peek == '-' {
            (seq![stok("|-"@, TokenKind::Turnstile)], pos + 1)
        } else {
            (seq![stok(one, TokenKind::Pipe)], pos)
        }
    } else if c == '-' {
        if peek == '>' {
            (seq![stok("->"@, TokenKind::Implies)], pos + 1)
        } else {
            (seq![stok(one, TokenKind::Operator)], pos)
        }
    } else if c == '~' || c == '¬' {
        (seq![stok(one, TokenKind::Negation)], pos)
    } else if c == '→' {
        (seq![stok(one, TokenKind::Implies)], pos)
    } else if c == '&' {
        if peek == '&' {
            (seq![stok("&&"@, TokenKind::Conjunction)], pos + 1)
        } else {
            (seq![stok(one, TokenKind::HypothesisConjunction)], pos)
        }
    } else if c == '⇒' {
        (seq![stok(one, TokenKind::HypothesisEnd)], pos)
    } else if c == '∀' {
        (seq![stok(one, TokenKind::ForAll)], pos)
    } else if c == '𝜑' || c == '𝜓' || c == '𝜒' {
        (seq![stok(one, TokenKind::WFF)], pos)
    } else if is_alphanumeric_char(c) {
        let end = alpha_run_end(chars, pos);
        (seq![stok(chars.subrange(pos, end + 1), TokenKind::Identifier)], end)
    } else if c == '\0' {
        (seq![stok(one, TokenKind::End)], pos)
    } else {
        (seq![stok(one, TokenKind::Number)], pos)
    }
}

/// The tokens the default lexer emits from position `pos` on, while the
/// position stays below `bound`, and the position it stops at.
pub open spec fn default_lex(chars: Seq<char>, bound: int, pos: int) -> (Seq<SToken>, int)
    decreases chars.len() + bound - pos,
{
    if pos >= bound || pos < 0 {
        (seq![], pos)
    } else {
        let step = default_lex_char(chars, pos, char_or(chars, pos, ' '));
        proof {
            lemma_default_lex_char_advance(chars, pos);
        }
        let rest = default_lex(chars, bound, step.1 + 1);
        (step.0 + rest.0, rest.1)
    }
}

/// The run of alphabetic characters stays inside the input.
pub proof fn lemma_alpha_run_end(chars: Seq<char>, p: int)
    requires
        0 <= p < chars.len(),
    ensures
        p <= alpha_run_end(chars, p) < chars.len(),
    decreases chars.len() - p,
{
    if p + 1 < chars.len() && is_alphabetic_char(chars[p + 1]) {
        lemma_alpha_run_end(chars, p + 1);
    }
}

/// One step of the default lexer moves forward and, past the input, by one
/// position at most.
pub proof fn lemma_default_lex_char_advance(chars: Seq<char>, pos: int)
    requires
        0 <= pos,
    ensures
        ({
            let r = default_lex_char(chars, pos, char_or(chars, pos, ' '));
            pos <= r.1 && (r.1 < chars.len() || r.1 == pos)
        }),
{
    if 0 <= pos < chars.len() {
        lemma_alpha_run_end(chars, pos);
    }
}

/// Lexer for formulas written with ASCII arrows (`->`, `|-`, `~`) or with their
/// Unicode forms.
pub struct DefaultLexer {
    pub(crate) tokens: Vec<Token>,
    pub(crate) input: String,
    pub(crate) position: usize,
    pub(crate) char: char,
    pub(crate) chars: Vec<char>,
    pub(crate) byte_len: usize,
}

impl DefaultLexer {
    /// A lexer at the start of `input`, with no tokens yet.
    pub fn new(input: String) -> (res: Self)
        ensures
            res.input_chars() == input@,
            res.tokenized() == default_lex(
                input@,
                (vstd::utf8::encode_utf8(input@).len() as usize) as int,
                0,
            ),
            res.cursor() == 0,
            res.current_char() == char_or(input@, 0, ' '),
            res.lexed() == Seq::<SToken>::empty(),
            res.well_formed(),
            res.can_tokenize(),
    {
        broadcast use vstd::string::group_string_axioms;
        let chars = chars_of(input.as_str());
        let first_char = if chars.len() > 0 {
            chars[0]
        } else {
            ' '
        };
        let byte_len = input.as_str().len();
        let res = DefaultLexer { tokens: Vec::new(), input, position: 0, char: first_char, chars, byte_len };
        assert(tokens_view(res.tokens@) =~= Seq::<SToken>::empty());
        res
    }

    fn advance(&mut self)
        requires
            old(self).position < usize::MAX,
        ensures
            final(self).chars == old(self).chars,
            final(self).byte_len == old(self).byte_len,
            final(self).input == old(self).input,
            final(self).tokens == old(self).tokens,
            final(self).position == old(self).position + 1,
            final(self).char == char_or(final(self).chars@, final(self).position as int, ' '),
    {
        self.position = self.position + 1;
        self.char = if self.position < self.chars.len() {
            self.chars[self.position]
        } else {
            ' '
        };
    }

    fn lex_char(&mut self)
        requires
            old(self).well_formed(),
            old(self).position < old(self).byte_len,
        ensures
            final(self).chars == old(self).chars,
            final(self).byte_len == old(self).byte_len,
            final(self).input == old(self).input,
            tokens_view(final(self).tokens@) == tokens_view(old(self).tokens@) + default_lex_char(
                old(self).chars@,
                old(self).position as int,
                old(self).char,
            ).0,
            final(self).position as int == default_lex_char(
                old(self).chars@,
                old(self).position as int,
                old(self).char,
            ).1,
            final(self).char == char_or(final(self).chars@, final(self).position as int, ' '),
    {
        let ghost chars = self.chars@;
        let ghost pos = self.position as int;
        let ghost old_tokens = tokens_view(self.tokens@);
        let c = self.char;
        proof {
            lemma_default_lex_char_advance(chars, pos);
        }
        if c == ' ' {
        } else if c == '(' {
            self.tokens.push(Token { value: char_to_string(c), kind: TokenKind::LeftParenthesis });
        } else if c == ')' {
            self.tokens.push(Token { value: char_to_string(c), kind: TokenKind::RightParenthesis });
        } else if c == '|' {
            if self.peek() == '-' {
                self.tokens.push(Token { value: owned("|-"), kind: TokenKind::Turnstile });
                self.advance();
            } else {
                self.tokens.push(Token { value: char_to_string(c), kind: TokenKind::Pipe });
            }
        } else if c == '-' {
            if self.peek() == '>' {
                self.tokens.push(Token { value: owned("->"), kind: TokenKind::Implies });
                self.advance();
            } else {
                self.tokens.push(Token { value: char_to_string(c), kind: TokenKind::Operator });
            }
        } else if c == '~' || c == '¬' {
            self.tokens.push(Token { value: char_to_string(c), kind: TokenKind::Negation });
        } else if c == '→' {
            self.tokens.push(Token { value: char_to_string(c), kind: TokenKind::Implies });
        } else if c == '&' {
            if self.peek() == '&' {
                self.tokens.push(Token { value: owned("&&"), kind: TokenKind::Conjunction });
                self.advance();
            } else {
                self.tokens.push(
                    Token { value: char_to_string(c), kind: TokenKind::HypothesisConjunction },
                );
            }
        } else if c == '⇒' {
            self.tokens.push(Token { value: char_to_string(c), kind: TokenKind::HypothesisEnd });
        } else if c == '∀' {
            self.tokens.push(Token { value: char_to_string(c), kind: TokenKind::ForAll });
        } else if c == '𝜑' || c == '𝜓' || c == '𝜒' {
            self.tokens.push(Token { value: char_to_string(c), kind: TokenKind::WFF });
        } else if char_is_alphanumeric(c) {
            let mut identifier = char_to_string(c);
            assert(identifier@ =~= chars.subrange(pos, pos + 1));
            loop
                invariant
                    self.chars == old(self).chars,
                    self.chars@ == chars,
                    self.chars@.len() <= usize::MAX,
                    0 <= pos <= self.position < chars.len(),
                    alpha_run_end(chars, self.position as int) == alpha_run_end(chars, pos),
                    identifier@ == chars.subrange(pos, self.position + 1),
                    self.char == char_or(chars, self.position as int, ' '),
                    self.tokens@ == old(self).tokens@,
                    self.byte_len == old(self).byte_len,
                    self.input == old(self).input,
                ensures
                    self.chars == old(self).chars,
                    pos <= self.position < chars.len(),
                    self.position == alpha_run_end(chars, pos),
                    identifier@ == chars.subrange(pos, self.position + 1),
                    self.char == char_or(chars, self.position as int, ' '),
                    self.tokens@ == old(self).tokens@,
                    self.byte_len == old(self).byte_len,
                    self.input == old(self).input,
                decreases chars.len() - self.position,
            {
                let pk = self.peek();
                let is_alpha = char_is_alphabetic(pk);
                if !is_alpha {
                    break;
                }
                assert(self.position + 1 < chars.len());
                let ghost before = identifier@;
                self.advance();
                assert(self.position < chars.len());
                assert(self.char == chars[self.position as int]);
                string_push(&mut identifier, self.char);
                assert(before =~= chars.subrange(pos, self.position as int));
                assert(identifier@ == before.push(chars[self.position as int]));
                let ghost np = self.position as int;
                assert(chars.subrange(pos, np + 1) =~= chars.subrange(pos, np).push(chars[np]));
                assert(identifier@ == chars.subrange(pos, np + 1));
            }
            self.tokens.push(Token { value: identifier, kind: TokenKind::Identifier });
        } else if c == '\0' {
            self.tokens.push(Token { value: char_to_string(c), kind: TokenKind::End });
        } else {
            self.tokens.push(Token { value: char_to_string(c), kind: TokenKind::Number });
        }
        assert(tokens_view(self.tokens@) =~= old_tokens + default_lex_char(chars, pos, c).0);
    }
}

impl Lexer for DefaultLexer {
    closed spec fn input_chars(&self) -> Seq<char> {
        self.chars@
    }

    closed spec fn cursor(&self) -> int {
        self.position as int
    }

    closed spec fn current_char(&self) -> char {
        self.char
    }

    closed spec fn lexed(&self) -> Seq<SToken> {
        tokens_view(self.tokens@)
    }

    closed spec fn well_formed(&self) -> bool {
        &&& self.char == char_or(self.chars@, self.position as int, ' ')
        &&& self.chars@.len() <= usize::MAX
    }

    closed spec fn can_tokenize(&self) -> bool {
        true
    }

    closed spec fn tokenized(&self) -> (Seq<SToken>, int) {
        default_lex(self.chars@, self.byte_len as int, self.position as int)
    }

    fn tokenize(&mut self) {
        let ghost chars = self.chars@;
        let ghost bound = self.byte_len as int;
        let ghost start = self.position as int;
        let ghost old_tokens = tokens_view(self.tokens@);
        while self.position < self.byte_len
            invariant
                self.well_formed(),
                self.chars@ == chars,
                self.byte_len as int == bound,
                start <= self.position,
                old_tokens + default_lex(chars, bound, start).0 == tokens_view(self.tokens@)
                    + default_lex(chars, bound, self.position as int).0,
                default_lex(chars, bound, start).1 == default_lex(
                    chars,
                    bound,
                    self.position as int,
                ).1,
            decreases chars.len() + bound - self.position,
        {
            let ghost p = self.position as int;
            let ghost before = tokens_view(self.tokens@);
            proof {
                lemma_default_lex_char_advance(chars, p);
            }
            self.lex_char();
            self.advance();
            proof {
                let step = default_lex_char(chars, p, char_or(chars, p, ' '));
                assert(before + default_lex(chars, bound, p).0 =~= before + step.0 + default_lex(
                    chars,
                    bound,
                    p + step.1 - p + 1,
                ).0);
                assert(tokens_view(self.tokens@) =~= before + step.0);
            }
        }
        proof {
            assert(default_lex(chars, bound, self.position as int).0 =~= Seq::<SToken>::empty());
        }
    }

    fn current_token(&self) -> (t: Token) {
        self.tokens[self.position].clone()
    }

    fn next_char(&mut self) {
        self.advance();
    }

    fn peek(&self) -> (c: char) {
        if self.position < self.chars.len() && self.position + 1 < self.chars.len() {
            self.chars[self.position + 1]
        } else {
            ' '
        }
    }

    fn tokens(&self) -> (ts: Vec<Token>) {
        self.tokens.clone()
    }
}

} // verus!

verus! {

/// How a token kind is displayed: connectives by their symbol, every other
/// kind by its name.
pub open spec fn token_kind_text(k: TokenKind) -> Seq<char> {
    match k {
        TokenKind::Implies => "→"@,
        TokenKind::Negation => "¬"@,
        TokenKind::Exists => "∃"@,
        TokenKind::HypothesisConjunction => "&"@,
        TokenKind::HypothesisEnd => "⇒"@,
        TokenKind::Equality => "="@,
        TokenKind::ElementOf => "∈"@,
        TokenKind::Biconditional => "↔"@,
        TokenKind::Add => "+"@,
        TokenKind::Modulo => "%"@,
        TokenKind::Comment => "//"@,
        TokenKind::Conjunction => "∧"@,
        TokenKind::Disjunction => "∨"@,
        TokenKind::Subset => "⊆"@,
        TokenKind::Equinumerosity => "≈"@,
        TokenKind::IsEqual => "=="@,
        _ => crate::lang_parser::kind_debug_text(k),
    }
}

impl TokenKind {
    /// The display text of the kind (see [`token_kind_text`]).
    pub fn to_string(&self) -> (res: String)
        ensures
            res@ == token_kind_text(*self),
    {
        match self {
            TokenKind::Implies => owned("→"),
            TokenKind::Negation => owned("¬"),
            TokenKind::Exists => owned("∃"),
            TokenKind::HypothesisConjunction => owned("&"),
            TokenKind::HypothesisEnd => owned("⇒"),
            TokenKind::Equality => owned("="),
            TokenKind::ElementOf => owned("∈"),
            TokenKind::Biconditional => owned("↔"),
            TokenKind::Add => owned("+"),
            TokenKind::Modulo => owned("%"),
            TokenKind::Comment => owned("//"),
            TokenKind::Conjunction => owned("∧"),
            TokenKind::Disjunction => owned("∨"),
            TokenKind::Subset => owned("⊆"),
            TokenKind::Equinumerosity => owned("≈"),
            TokenKind::IsEqual => owned("=="),
            _ => crate::lang_parser::kind_debug_string(*self),
        }
    }
}

} // verus!
