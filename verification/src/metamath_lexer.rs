//! The Metamath lexer the formula parser reads: variables are identifiers.
use vstd::prelude::*;
use crate::lexer::{Token, TokenKind, SToken, stok, tokens_view};
use crate::metamath::{char_lex, CharTable, classify_char};
use crate::parser::Lexer;
use crate::text::{char_or, char_to_string, chars_of};

verus! {

/// How this lexer classifies characters: formula variables, set variables and
/// A, B, C are identifiers; anything outside its notation is unknown.
pub open spec fn identifier_classify(c: char) -> Option<Option<TokenKind>> {
    if c == ' ' {
        Some(None)
    } else if c == '⊢' {
        Some(Some(TokenKind::Turnstile))
    } else if c == '(' {
        Some(Some(TokenKind::LeftParenthesis))
    } else if c == ')' {
        Some(Some(TokenKind::RightParenthesis))
    } else if c == '→' {
        Some(Some(TokenKind::Implies))
    } else if c == '¬' {
        Some(Some(TokenKind::Negation))
    } else if c == '∀' {
        Some(Some(TokenKind::ForAll))
    } else if c == '∃' {
        Some(Some(TokenKind::Exists))
    } else if c == '𝑥' || c == '𝜑' || c == '𝜓' || c == '𝜒' {
        Some(Some(TokenKind::Identifier))
    } else if c == '&' {
        Some(Some(TokenKind::HypothesisConjunction))
    } else if c == '⇒' {
        Some(Some(TokenKind::HypothesisEnd))
    } else if c == '=' {
        Some(Some(TokenKind::Equality))
    } else if c == 'A' || c == 'B' || c == 'C' || c == '𝑦' || c == '𝑧' {
        Some(Some(TokenKind::Identifier))
    } else if c == '∈' {
        Some(Some(TokenKind::ElementOf))
    } else if c == '↔' {
        Some(Some(TokenKind::Biconditional))
    } else {
        None
    }
}

fn classify(c: char) -> (res: Option<Option<TokenKind>>)
    ensures
        res == identifier_classify(c),
{
    if c == ' ' {
        Some(None)
    } else if c == '⊢' {
        Some(Some(TokenKind::Turnstile))
    } else if c == '(' {
        Some(Some(TokenKind::LeftParenthesis))
    } else if c == ')' {
        Some(Some(TokenKind::RightParenthesis))
    } else if c == '→' {
        Some(Some(TokenKind::Implies))
    } else if c == '¬' {
        Some(Some(TokenKind::Negation))
    } else if c == '∀' {
        Some(Some(TokenKind::ForAll))
    } else if c == '∃' {
        Some(Some(TokenKind::Exists))
    } else if c == '𝑥' || c == '𝜑' || c == '𝜓' || c == '𝜒' {
        Some(Some(TokenKind::Identifier))
    } else if c == '&' {
        Some(Some(TokenKind::HypothesisConjunction))
    } else if c == '⇒' {
        Some(Some(TokenKind::HypothesisEnd))
    } else if c == '=' {
        Some(Some(TokenKind::Equality))
    } else if c == 'A' || c == 'B' || c == 'C' || c == '𝑦' || c == '𝑧' {
        Some(Some(TokenKind::Identifier))
    } else if c == '∈' {
        Some(Some(TokenKind::ElementOf))
    } else if c == '↔' {
        Some(Some(TokenKind::Biconditional))
    } else {
        None
    }
}

/// Lexer for Metamath formulas whose variables are identifiers.
pub struct MetaMathLexer {
    pub(crate) input: String,
    pub(crate) position: usize,
    pub(crate) char: char,
    pub(crate) tokens: Vec<Token>,
    pub(crate) chars: Vec<char>,
    pub(crate) byte_len: usize,
}

impl MetaMathLexer {
    /// A lexer at the start of `input`, with no tokens yet.
    pub fn new(input: String) -> (res: Self)
        ensures
            res.input_chars() == input@,
            res.cursor() == 0,
            res.current_char() == char_or(input@, 0, ' '),
            res.lexed() == Seq::<SToken>::empty(),
            res.well_formed(),
            res.can_tokenize() == ((vstd::utf8::encode_utf8(input@).len() as usize) >= 1
                && char_lex(
                input@,
                (vstd::utf8::encode_utf8(input@).len() as usize) - 1,
                0,
                CharTable::Identifiers,
            ).complete),
            res.tokenized().0 == char_lex(
                input@,
                (vstd::utf8::encode_utf8(input@).len() as usize) - 1,
                0,
                CharTable::Identifiers,
            ).tokens,
    {
        broadcast use vstd::string::group_string_axioms;

        let chars = chars_of(input.as_str());
        let first_char = if chars.len() > 0 {
            chars[0]
        } else {
            ' '
        };
        let byte_len = input.as_str().len();
        let res = MetaMathLexer { input, position: 0, char: first_char, tokens: Vec::new(), chars, byte_len };
        assert(tokens_view(res.tokens@) =~= Seq::<SToken>::empty());
        res
    }

    fn advance(&mut self)
        requires
            old(self).position < usize::MAX,
        ensures
            final(self).chars == old(self).chars,
            final(self).byte_len == old(self).byte_len,
            final(self).input == old(self).input,
            final(self).tokens == old(self).tokens,
            final(self).position == old(self).position + 1,
            final(self).char == char_or(final(self).chars@, final(self).position as int, ' '),
    {
        self.position = self.position + 1;
        self.char = if self.position < self.chars.len() {
            self.chars[self.position]
        } else {
            ' '
        };
    }
}

impl Lexer for MetaMathLexer {
    closed spec fn input_chars(&self) -> Seq<char> {
        self.chars@
    }

    closed spec fn cursor(&self) -> int {
        self.position as int
    }

    closed spec fn current_char(&self) -> char {
        self.char
    }

    closed spec fn lexed(&self) -> Seq<SToken> {
        tokens_view(self.tokens@)
    }

    closed spec fn well_formed(&self) -> bool {
        self.char == char_or(self.chars@, self.position as int, ' ')
    }

    /// The input is not empty and every character visited is part of the notation.
    closed spec fn can_tokenize(&self) -> bool {
        self.byte_len >= 1 && char_lex(
            self.chars@,
            self.byte_len - 1,
            self.position as int,
            CharTable::Identifiers,
        ).complete
    }

    closed spec fn tokenized(&self) -> (Seq<SToken>, int) {
        let o = char_lex(self.chars@, self.byte_len - 1, self.position as int, CharTable::Identifiers);
        (o.tokens, o.stop)
    }

    fn tokenize(&mut self) {
        let ghost chars = self.chars@;
        let ghost bound = self.byte_len - 1;
        let ghost start = self.position as int;
        let ghost old_tokens = tokens_view(self.tokens@);
        let ghost table = CharTable::Identifiers;
        let ghost outcome = char_lex(chars, bound, start, table);
        while self.position < self.byte_len - 1
            invariant
                self.well_formed(),
                self.chars@ == chars,
                self.byte_len >= 1,
                self.byte_len - 1 == bound,
                table == CharTable::Identifiers,
                outcome == char_lex(chars, bound, start, table),
                outcome.complete,
                start <= self.position,
                old_tokens + outcome.tokens == tokens_view(self.tokens@) + char_lex(
                    chars,
                    bound,
                    self.position as int,
                    table,
                ).tokens,
                char_lex(chars, bound, self.position as int, table).complete,
                char_lex(chars, bound, self.position as int, table).stop == outcome.stop,
            decreases bound - self.position,
        {
            let ghost p = self.position as int;
            let ghost before = tokens_view(self.tokens@);
            let c = self.char;
            let class = classify(c);
            assert(class == classify_char(table, c));
            match class {
                None => {
                    assert(false);
                },
                Some(None) => {},
                Some(Some(kind)) => {
                    self.tokens.push(Token { value: char_to_string(c), kind });
                    assert(tokens_view(self.tokens@) =~= before + seq![stok(seq![c], kind)]);
                },
            }
            self.advance();
            proof {
                let rest = char_lex(chars, bound, p + 1, table);
                let emitted = match identifier_classify(c) {
                    Some(Some(kind)) => seq![stok(seq![c], kind)],
                    _ => seq![],
                };
                assert(before + (emitted + rest.tokens) =~= (before + emitted) + rest.tokens);
                assert(tokens_view(self.tokens@) =~= before + emitted);
            }
        }
        proof {
            assert(tokens_view(self.tokens@) + seq![] =~= tokens_view(self.tokens@));
        }
    }

    fn current_token(&self) -> (t: Token) {
        self.tokens[self.position].clone()
    }

    fn next_char(&mut self) {
        self.advance();
    }

    fn peek(&self) -> (c: char) {
        if self.position < self.chars.len() && self.position + 1 < self.chars.len() {
            self.chars[self.position + 1]
        } else {
            ' '
        }
    }

    fn tokens(&self) -> (ts: Vec<Token>) {
        self.tokens.clone()
    }
}

} // verus!
