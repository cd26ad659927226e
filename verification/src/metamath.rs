//! A lexer for Metamath formulas that reports characters it does not know.
use vstd::prelude::*;
use crate::lexer::{Token, TokenKind, SToken, stok, tokens_view};
use crate::text::{char_or, char_to_string, chars_of};

verus! {

/// Errors of the Metamath lexer.
#[derive(Debug)]
pub enum MetaMathLexerError {
    Unimplemented,
    InvalidToken,
}

/// Result of lexing character by character.
pub struct CharLexOutcome {
    /// The tokens emitted.
    pub tokens: Seq<SToken>,
    /// Whether every character was known.
    pub complete: bool,
    /// The position reached: the bound, or the first unknown character.
    pub stop: int,
}

/// The character tables of the two Metamath lexers.
pub enum CharTable {
    /// Distinct kinds for 𝜑, 𝜓, 𝜒 and 𝑥.
    Symbols,
    /// Variables and A, B, C as identifiers, with the hypothesis and set symbols.
    Identifiers,
}

/// How a table classifies a character: unknown (`None`), skipped
/// (`Some(None)`) or a token of a kind (`Some(Some(kind))`).
pub open spec fn classify_char(table: CharTable, c: char) -> Option<Option<TokenKind>> {
    match table {
        CharTable::Symbols => metamath_classify(c),
        CharTable::Identifiers => crate::metamath_lexer::identifier_classify(c),
    }
}

/// Lexing where each character makes at most one token, as `table` says.
/// Positions from `pos` up to `bound` (exclusive) are visited; past the input
/// the character is a space.
pub open spec fn char_lex(chars: Seq<char>, bound: int, pos: int, table: CharTable) -> CharLexOutcome
    decreases bound - pos,
{
    if pos >= bound {
        CharLexOutcome { tokens: seq![], complete: true, stop: pos }
    } else {
        let c = char_or(chars, pos, ' ');
        match classify_char(table, c) {
            None => CharLexOutcome { tokens: seq![], complete: false, stop: pos },
            Some(k) => {
                let rest = char_lex(chars, bound, pos + 1, table);
                let emitted = match k {
                    Some(kind) => seq![stok(seq![c], kind)],
                    None => seq![],
                };
                CharLexOutcome { tokens: emitted + rest.tokens, complete: rest.complete, stop: rest.stop }
            },
        }
    }
}

/// How this lexer classifies characters.
pub open spec fn metamath_classify(c: char) -> Option<Option<TokenKind>> {
    if c == ' ' {
        Some(None)
    } else if c == '⊢' {
        Some(Some(TokenKind::Turnstile))
    } else if c == '(' {
        Some(Some(TokenKind::LeftParenthesis))
    } else if c == ')' {
        Some(Some(TokenKind::RightParenthesis))
    } else if c == '→' {
        Some(Some(TokenKind::Implies))
    } else if c == '¬' {
        Some(Some(TokenKind::Negation))
    } else if c == '∀' {
        Some(Some(TokenKind::ForAll))
    } else if c == '∃' {
        Some(Some(TokenKind::Exists))
    } else if c == '𝑥' {
        Some(Some(TokenKind::BoundX))
    } else if c == '𝜑' {
        Some(Some(TokenKind::Phi))
    } else if c == '𝜓' {
        Some(Some(TokenKind::Psi))
    } else if c == '𝜒' {
        Some(Some(TokenKind::Chi))
    } else {
        None
    }
}

fn classify(c: char) -> (res: Option<Option<TokenKind>>)
    ensures
        res == metamath_classify(c),
{
    if c == ' ' {
        Some(None)
    } else if c == '⊢' {
        Some(Some(TokenKind::Turnstile))
    } else if c == '(' {
        Some(Some(TokenKind::LeftParenthesis))
    } else if c == ')' {
        Some(Some(TokenKind::RightParenthesis))
    } else if c == '→' {
        Some(Some(TokenKind::Implies))
    } else if c == '¬' {
        Some(Some(TokenKind::Negation))
    } else if c == '∀' {
        Some(Some(TokenKind::ForAll))
    } else if c == '∃' {
        Some(Some(TokenKind::Exists))
    } else if c == '𝑥' {
        Some(Some(TokenKind::BoundX))
    } else if c == '𝜑' {
        Some(Some(TokenKind::Phi))
    } else if c == '𝜓' {
        Some(Some(TokenKind::Psi))
    } else if c == '𝜒' {
        Some(Some(TokenKind::Chi))
    } else {
        None
    }
}

/// Lexer for Metamath formulas with distinct kinds for 𝜑, 𝜓, 𝜒 and 𝑥.
pub struct MetaMathLexer {
    pub(crate) input: String,
    pub(crate) position: usize,
    pub(crate) char: char,
    pub(crate) tokens: Vec<Token>,
    pub(crate) chars: Vec<char>,
    pub(crate) byte_len: usize,
}

impl MetaMathLexer {
    /// The characters of the input.
    pub closed spec fn input_chars(&self) -> Seq<char> {
        self.chars@
    }

    /// The position of the current character.
    pub closed spec fn cursor(&self) -> int {
        self.position as int
    }

    /// The tokens produced so far.
    pub closed spec fn lexed(&self) -> Seq<SToken> {
        tokens_view(self.tokens@)
    }

    /// The current character is the one at the cursor.
    pub closed spec fn well_formed(&self) -> bool {
        self.char == char_or(self.chars@, self.position as int, ' ')
    }

    /// The input is not empty, so its length in bytes less one is the bound.
    pub closed spec fn can_tokenize(&self) -> bool {
        self.byte_len >= 1
    }

    /// The last position (exclusive) that tokenizing visits: the input's
    /// length in bytes less one.
    pub closed spec fn bound(&self) -> int {
        self.byte_len - 1
    }

    /// What tokenizing from the current state gives: positions up to the
    /// input's length in bytes less one are visited.
    pub closed spec fn tokenized(&self) -> CharLexOutcome {
        char_lex(
            self.chars@,
            self.bound(),
            self.position as int,
            CharTable::Symbols,
        )
    }

    /// A lexer at the start of `input`, with no tokens yet.
    pub fn new(input: String) -> (res: Self)
        ensures
            res.input_chars() == input@,
            res.cursor() == 0,
            res.lexed() == Seq::<SToken>::empty(),
            res.well_formed(),
            res.can_tokenize() == ((vstd::utf8::encode_utf8(input@).len() as usize) >= 1),
            res.bound() == (vstd::utf8::encode_utf8(input@).len() as usize) - 1,
            res.can_tokenize() ==> res.tokenized() == char_lex(
                input@,
                (vstd::utf8::encode_utf8(input@).len() as usize) - 1,
                0,
                CharTable::Symbols,
            ),
    {
        broadcast use vstd::string::group_string_axioms;

        let chars = chars_of(input.as_str());
        let first_char = if chars.len() > 0 {
            chars[0]
        } else {
            ' '
        };
        let byte_len = input.as_str().len();
        let res = MetaMathLexer { input, position: 0, char: first_char, tokens: Vec::new(), chars, byte_len };
        assert(tokens_view(res.tokens@) =~= Seq::<SToken>::empty());
        res
    }

    /// The token whose index is the current position.
    pub fn current_token(&self) -> (t: Token)
        requires
            0 <= self.cursor() < self.lexed().len(),
        ensures
            t@ == self.lexed()[self.cursor()],
    {
        self.tokens[self.position].clone()
    }

    /// Moves to the next character (a space past the end of the input).
    pub fn next_char(&mut self)
        requires
            old(self).cursor() + 1 <= usize::MAX,
        ensures
            final(self).well_formed(),
            final(self).cursor() == old(self).cursor() + 1,
            final(self).input_chars() == old(self).input_chars(),
            final(self).lexed() == old(self).lexed(),
            final(self).can_tokenize() == old(self).can_tokenize(),
            final(self).bound() == old(self).bound(),
    {
        self.advance();
    }

    fn advance(&mut self)
        requires
            old(self).position < usize::MAX,
        ensures
            final(self).chars == old(self).chars,
            final(self).byte_len == old(self).byte_len,
            final(self).input == old(self).input,
            final(self).tokens == old(self).tokens,
            final(self).position == old(self).position + 1,
            final(self).char == char_or(final(self).chars@, final(self).position as int, ' '),
    {
        self.position = self.position + 1;
        self.char = if self.position < self.chars.len() {
            self.chars[self.position]
        } else {
            ' '
        };
    }

    /// The character after the current one (a space past the end of the input).
    pub fn peek(&self) -> (c: char)
        ensures
            c == char_or(self.input_chars(), self.cursor() + 1, ' '),
    {
        if self.position < self.chars.len() && self.position + 1 < self.chars.len() {
            self.chars[self.position + 1]
        } else {
            ' '
        }
    }

    /// Tokenizes the input, stopping with an error at the first character that
    /// is not part of the notation; the tokens before it stay.
    pub fn tokenize(&mut self) -> (res: Result<(), MetaMathLexerError>)
        requires
            old(self).well_formed(),
            old(self).can_tokenize(),
        ensures
            final(self).well_formed(),
            final(self).input_chars() == old(self).input_chars(),
            final(self).lexed() == old(self).lexed() + old(self).tokenized().tokens,
            final(self).cursor() == old(self).tokenized().stop,
            res is Ok <==> old(self).tokenized().complete,
            res matches Err(e) ==> e is InvalidToken,
    {
        let ghost chars = self.chars@;
        let ghost bound = self.byte_len - 1;
        let ghost start = self.position as int;
        let ghost old_tokens = tokens_view(self.tokens@);
        let ghost cl = CharTable::Symbols;
        let ghost outcome = char_lex(chars, bound, start, cl);
        while self.position < self.byte_len - 1
            invariant
                self.well_formed(),
                self.chars@ == chars,
                self.byte_len >= 1,
                self.byte_len - 1 == bound,
                chars == old(self).chars@,
                start == old(self).position,
                bound == old(self).byte_len - 1,
                old_tokens == tokens_view(old(self).tokens@),
                cl == CharTable::Symbols,
                outcome == char_lex(chars, bound, start, cl),
                start <= self.position,
                old_tokens + outcome.tokens == tokens_view(self.tokens@) + char_lex(
                    chars,
                    bound,
                    self.position as int,
                    cl,
                ).tokens,
                char_lex(chars, bound, self.position as int, cl).complete == outcome.complete,
                char_lex(chars, bound, self.position as int, cl).stop == outcome.stop,
            decreases bound - self.position,
        {
            let ghost p = self.position as int;
            let ghost before = tokens_view(self.tokens@);
            let c = self.char;
            match classify(c) {
                None => {
                    proof {
                        assert(classify_char(cl, c) is None);
                        assert(char_lex(chars, bound, p, cl).tokens == Seq::<SToken>::empty());
                        assert(char_lex(chars, bound, p, cl).stop == p);
                        assert(outcome == old(self).tokenized());
                        assert(tokens_view(self.tokens@) + seq![] =~= tokens_view(self.tokens@));
                    }
                    return Err(MetaMathLexerError::InvalidToken);
                },
                Some(None) => {},
                Some(Some(kind)) => {
                    self.tokens.push(Token { value: char_to_string(c), kind });
                    assert(tokens_view(self.tokens@) =~= before + seq![stok(seq![c], kind)]);
                },
            }
            self.advance();
            proof {
                let rest = char_lex(chars, bound, p + 1, cl);
                let emitted = match metamath_classify(c) {
                    Some(Some(kind)) => seq![stok(seq![c], kind)],
                    _ => seq![],
                };
                assert(before + (emitted + rest.tokens) =~= (before + emitted) + rest.tokens);
                assert(tokens_view(self.tokens@) =~= before + emitted);
            }
        }
        proof {
            assert(tokens_view(self.tokens@) + seq![] =~= tokens_view(self.tokens@));
        }
        Ok(())
    }

    /// The tokens produced so far.
    pub fn tokens(&self) -> (ts: Vec<Token>)
        ensures
            tokens_view(ts@) == self.lexed(),
    {
        self.tokens.clone()
    }
}

} // verus!
