//! Lexer for the language and for formulas written in Metamath notation.
use vstd::prelude::*;
use crate::lexer::{Token, TokenKind, SToken, stok, tokens_view};
use crate::text::{
    char_or, is_alphabetic_char, is_alphanumeric_char, is_numeric_char, is_decimal_digit,
    string_push, char_to_string, char_is_alphabetic, char_is_alphanumeric, char_is_numeric,
    owned, chars_of,
};

verus! {

/// What one character (with what follows it) contributes to the token stream.
pub enum LangStep {
    /// Tokens to emit and the position of the last character used.
    Emit(Seq<SToken>, int),
    /// An error with its message.
    Fail(Seq<char>),
    /// The lexer would never stop: a string literal that is not closed.
    Stuck,
}

/// Result of lexing the rest of an input.
pub enum LangLexOutcome {
    /// All tokens.
    Done(Seq<SToken>),
    /// The tokens emitted before the error, the message and the position of the
    /// offending character.
    Failed(Seq<SToken>, Seq<char>, int),
    /// The lexer would never stop.
    Stuck,
}

/// The single-character tokens of the lexer.
pub open spec fn lang_single_kind(c: char) -> Option<TokenKind> {
    if c == '(' {
        Some(TokenKind::LeftParenthesis)
    } else if c == ')' {
        Some(TokenKind::RightParenthesis)
    } else if c == ';' {
        Some(TokenKind::Semicolon)
    } else if c == '=' {
        Some(TokenKind::Equality)
    } else if c == ':' {
        Some(TokenKind::Colon)
    } else if c == '+' {
        Some(TokenKind::Add)
    } else if c == '⊢' {
        Some(TokenKind::Turnstile)
    } else if c == '→' {
        Some(TokenKind::Implies)
    } else if c == '¬' {
        Some(TokenKind::Negation)
    } else if c == '∀' {
        Some(TokenKind::ForAll)
    } else if c == '∃' {
        Some(TokenKind::Exists)
    } else if c == '𝜑' || c == '𝜓' || c == '𝜒' {
        Some(TokenKind::WFF)
    } else if c == '&' {
        Some(TokenKind::BitwiseAnd)
    } else if c == '⇒' {
        Some(TokenKind::HypothesisEnd)
    } else if c == 'A' || c == 'B' || c == 'C' {
        Some(TokenKind::Identifier)
    } else if c == '𝑡' || c == '𝑢' || c == '𝑣' || c == '𝑥' || c == '𝑦' || c == '𝑧' || c == '𝑤' {
        Some(TokenKind::SetVar)
    } else if c == '∈' {
        Some(TokenKind::ElementOf)
    } else if c == '↔' {
        Some(TokenKind::Biconditional)
    } else if c == '∧' {
        Some(TokenKind::Conjunction)
    } else if c == '∨' {
        Some(TokenKind::Disjunction)
    } else if c == '-' {
        Some(TokenKind::Subtract)
    } else if c == '*' {
        Some(TokenKind::Multiply)
    } else if c == '%' {
        Some(TokenKind::Modulo)
    } else if c == '{' {
        Some(TokenKind::LCurlyBracket)
    } else if c == '}' {
        Some(TokenKind::RCurlyBracket)
    } else if c == '[' {
        Some(TokenKind::LBracket)
    } else if c == ']' {
        Some(TokenKind::RBracket)
    } else if c == ',' {
        Some(TokenKind::Comma)
    } else if c == '.' {
        Some(TokenKind::Period)
    } else if c == '<' {
        Some(TokenKind::LessThan)
    } else if c == '>' {
        Some(TokenKind::GreaterThan)
    } else if c == '|' {
        Some(TokenKind::BitwiseOr)
    } else if c == '^' {
        Some(TokenKind::BitwiseXor)
    } else if c == '~' {
        Some(TokenKind::Negation)
    } else {
        None
    }
}

/// The two-character tokens of the lexer.
pub open spec fn lang_pair_kind(c: char, next: char) -> Option<TokenKind> {
    if c == '=' && next == '=' {
        Some(TokenKind::IsEqual)
    } else if c == '.' && next == '.' {
        Some(TokenKind::Range)
    } else if c == '<' && next == '<' {
        Some(TokenKind::ShiftLeft)
    } else if c == '>' && next == '>' {
        Some(TokenKind::ShiftRight)
    } else if c == '|' && next == '|' {
        Some(TokenKind::Or)
    } else if c == '&' && next == '&' {
        Some(TokenKind::And)
    } else {
        None
    }
}

/// Characters that continue a word.
pub open spec fn word_char(c: char) -> bool {
    is_alphanumeric_char(c) || c == '_'
}

/// The last position of the word that starts at `p`.
pub open spec fn word_end(chars: Seq<char>, p: int) -> int
    decreases chars.len() - p,
{
    if 0 <= p && p + 1 < chars.len() && word_char(chars[p + 1]) {
        word_end(chars, p + 1)
    } else {
        p
    }
}

/// The last position of the number that starts at `p`.
pub open spec fn number_end(chars: Seq<char>, p: int) -> int
    decreases chars.len() - p,
{
    if 0 <= p && p + 1 < chars.len() && is_numeric_char(chars[p + 1]) {
        number_end(chars, p + 1)
    } else {
        p
    }
}

/// The position of the first `"` after `p`, if there is one.
pub open spec fn closing_quote(chars: Seq<char>, p: int) -> Option<int>
    decreases chars.len() - p,
{
    if p + 1 >= chars.len() || p < 0 {
        None
    } else if chars[p + 1] == '"' {
        Some(p + 1)
    } else {
        closing_quote(chars, p + 1)
    }
}

/// The message for a character the lexer does not know.
pub open spec fn unknown_char_message(c: char) -> Seq<char> {
    "Unknown character: "@.push(c)
}

/// What the lexer does with the character at `cur`. A `//` comment ends
/// lexing: it swallows the rest of the input, line breaks included, and
/// leaves one comment token.
pub open spec fn lang_lex_char(chars: Seq<char>, cur: int) -> LangStep {
    let c = chars[cur];
    let peek = char_or(chars, cur + 1, '\0');
    if c == ' ' || c == '\n' {
        LangStep::Emit(seq![], cur)
    } else if c == '/' {
        if peek == '/' {
            LangStep::Emit(seq![stok(seq!['\0'], TokenKind::Comment)], chars.len() as int)
        } else {
            LangStep::Emit(seq![stok(seq![c], TokenKind::Divide)], cur)
        }
    } else if c == '"' {
        match closing_quote(chars, cur) {
            Some(q) => LangStep::Emit(
                seq![stok(chars.subrange(cur + 1, q), TokenKind::String)],
                q,
            ),
            None => LangStep::Stuck,
        }
    } else if lang_pair_kind(c, peek) is Some {
        LangStep::Emit(seq![stok(seq![c, peek], lang_pair_kind(c, peek)->0)], cur + 1)
    } else if lang_single_kind(c) is Some {
        LangStep::Emit(seq![stok(seq![c], lang_single_kind(c)->0)], cur)
    } else if is_alphabetic_char(c) {
        let e = word_end(chars, cur);
        LangStep::Emit(seq![stok(chars.subrange(cur, e + 1), TokenKind::Word)], e)
    } else if is_decimal_digit(c) {
        let e = number_end(chars, cur);
        LangStep::Emit(seq![stok(chars.subrange(cur, e + 1), TokenKind::Number)], e)
    } else {
        LangStep::Fail(unknown_char_message(c))
    }
}

/// Lexing the input from position `cur` on.
pub open spec fn lang_lex(chars: Seq<char>, cur: int) -> LangLexOutcome
    decreases chars.len() - cur,
{
    if cur >= chars.len() || cur < 0 {
        LangLexOutcome::Done(seq![])
    } else {
        match lang_lex_char(chars, cur) {
            LangStep::Emit(t, p) => {
                let next = if p + 1 < chars.len() {
                    p + 1
                } else {
                    chars.len() as int
                };
                if next <= cur {
                    LangLexOutcome::Done(t)
                } else {
                    match lang_lex(chars, next) {
                        LangLexOutcome::Done(r) => LangLexOutcome::Done(t + r),
                        LangLexOutcome::Failed(r, m, at) => LangLexOutcome::Failed(t + r, m, at),
                        LangLexOutcome::Stuck => LangLexOutcome::Stuck,
                    }
                }
            },
            LangStep::Fail(m) => LangLexOutcome::Failed(seq![], m, cur),
            LangStep::Stuck => LangLexOutcome::Stuck,
        }
    }
}

proof fn lemma_word_end(chars: Seq<char>, p: int)
    requires
        0 <= p < chars.len(),
    ensures
        p <= word_end(chars, p) < chars.len(),
    decreases chars.len() - p,
{
    if p + 1 < chars.len() && word_char(chars[p + 1]) {
        lemma_word_end(chars, p + 1);
    }
}

proof fn lemma_number_end(chars: Seq<char>, p: int)
    requires
        0 <= p < chars.len(),
    ensures
        p <= number_end(chars, p) < chars.len(),
    decreases chars.len() - p,
{
    if p + 1 < chars.len() && is_numeric_char(chars[p + 1]) {
        lemma_number_end(chars, p + 1);
    }
}

proof fn lemma_closing_quote(chars: Seq<char>, p: int)
    requires
        0 <= p,
    ensures
        closing_quote(chars, p) matches Some(q) ==> p < q < chars.len() && chars[q] == '"'
            && forall|k: int| p < k < q ==> chars[k] != '"',
    decreases chars.len() - p,
{
    if p + 1 < chars.len() && chars[p + 1] != '"' {
        lemma_closing_quote(chars, p + 1);
    }
}

proof fn lemma_lang_lex_char_advance(chars: Seq<char>, cur: int)
    requires
        0 <= cur < chars.len(),
    ensures
        lang_lex_char(chars, cur) matches LangStep::Emit(t, p) ==> cur <= p <= chars.len(),
{
    lemma_word_end(chars, cur);
    lemma_number_end(chars, cur);
    lemma_closing_quote(chars, cur);
}

/// The lexer of the language.
pub struct LangLexer<'a> {
    pub(crate) char: Option<char>,
    pub(crate) tokens: Vec<Token>,
    pub(crate) input: &'a str,
    pub(crate) chars: Vec<char>,
    pub(crate) cur: usize,
}

impl<'a> LangLexer<'a> {
    /// The characters of the input.
    pub closed spec fn input_chars(&self) -> Seq<char> {
        self.chars@
    }

    /// The position of the current character (the input's length once it is exhausted).
    pub closed spec fn cursor(&self) -> int {
        self.cur as int
    }

    /// The tokens produced so far.
    pub closed spec fn lexed(&self) -> Seq<SToken> {
        tokens_view(self.tokens@)
    }

    /// The current character and the cursor agree.
    pub closed spec fn well_formed(&self) -> bool {
        &&& self.cur <= self.chars@.len()
        &&& self.char == if self.cur < self.chars@.len() {
            Some(self.chars@[self.cur as int])
        } else {
            None
        }
    }

    /// A lexer at the first character of `input`, with no tokens yet.
    pub fn new(input: &'a str) -> (res: Self)
        ensures
            res.well_formed(),
            res.input_chars() == input@,
            res.cursor() == 0,
            res.lexed() == Seq::<SToken>::empty(),
    {
        let chars = chars_of(input);
        let char = if chars.len() > 0 {
            Some(chars[0])
        } else {
            None
        };
        let res = LangLexer { char, tokens: Vec::new(), input, chars, cur: 0 };
        assert(tokens_view(res.tokens@) =~= Seq::<SToken>::empty());
        res
    }

    /// The current character, NUL once the input is exhausted.
    pub fn current_char(&self) -> (c: char)
        requires
            self.well_formed(),
        ensures
            c == char_or(self.input_chars(), self.cursor(), '\0'),
    {
        match self.char {
            Some(c) => c,
            None => '\0',
        }
    }

    /// Moves to the next character.
    pub fn next_char(&mut self)
        requires
            old(self).well_formed(),
        ensures
            final(self).well_formed(),
            final(self).input_chars() == old(self).input_chars(),
            final(self).lexed() == old(self).lexed(),
            final(self).cursor() == if old(self).cursor() < old(self).input_chars().len() {
                old(self).cursor() + 1
            } else {
                old(self).cursor()
            },
    {
        self.step();
    }

    fn step(&mut self)
        requires
            old(self).well_formed(),
        ensures
            final(self).well_formed(),
            final(self).chars == old(self).chars,
            final(self).tokens == old(self).tokens,
            final(self).input == old(self).input,
            final(self).cur == if old(self).cur < old(self).chars@.len() {
                old(self).cur + 1
            } else {
                old(self).cur as int
            },
    {
        if self.cur < self.chars.len() {
            self.cur = self.cur + 1;
        }
        self.char = if self.cur < self.chars.len() {
            Some(self.chars[self.cur])
        } else {
            None
        };
    }

    fn peek_char(&self) -> (c: char)
        requires
            self.well_formed(),
        ensures
            c == char_or(self.chars@, self.cur + 1, '\0'),
    {
        if self.cur < self.chars.len() && self.cur + 1 < self.chars.len() {
            self.chars[self.cur + 1]
        } else {
            '\0'
        }
    }

    fn push_token(&mut self, value: String, kind: TokenKind)
        ensures
            final(self).tokens@ == old(self).tokens@.push(Token { value, kind }),
            final(self).chars == old(self).chars,
            final(self).char == old(self).char,
            final(self).cur == old(self).cur,
            final(self).input == old(self).input,
    {
        self.tokens.push(Token { value, kind });
    }

    fn lex_char(&mut self) -> (res: Result<(), String>)
        requires
            old(self).well_formed(),
            old(self).cur < old(self).chars@.len(),
            !(lang_lex_char(old(self).chars@, old(self).cur as int) is Stuck),
        ensures
            final(self).well_formed(),
            final(self).chars == old(self).chars,
            final(self).input == old(self).input,
            match lang_lex_char(old(self).chars@, old(self).cur as int) {
                LangStep::Emit(t, p) => res is Ok && tokens_view(final(self).tokens@)
                    == tokens_view(old(self).tokens@) + t && final(self).cur == p,
                LangStep::Fail(m) => res matches Err(e) && e@ == m && final(self).tokens
                    == old(self).tokens && final(self).cur == old(self).cur,
                LangStep::Stuck => false,
            },
    {
        let ghost chars = self.chars@;
        let ghost cur = self.cur as int;
        let ghost old_tokens = tokens_view(self.tokens@);
        let c = self.current_char();
        if c == ' ' || c == '\n' {
            return Ok(());
        }
        if c == '/' {
            if self.peek_char() == '/' {
                while self.char.is_some()
                    invariant
                        self.well_formed(),
                        self.chars == old(self).chars,
                        self.chars@ == chars,
                        self.tokens == old(self).tokens,
                        self.input == old(self).input,
                    decreases chars.len() - self.cur,
                {
                    self.step();
                }
                let v = char_to_string(self.current_char());
                self.push_token(v, TokenKind::Comment);
                assert(tokens_view(self.tokens@) =~= old_tokens + seq![
                    stok(seq!['\0'], TokenKind::Comment),
                ]);
                return Ok(());
            } else {
                self.push_token(char_to_string(c), TokenKind::Divide);
                assert(tokens_view(self.tokens@) =~= old_tokens + seq![stok(seq![c], TokenKind::Divide)]);
                return Ok(());
            }
        }
        if c == '"' {
            proof {
                lemma_closing_quote(chars, cur);
            }
            let ghost q = closing_quote(chars, cur)->0;
            let mut string = String::new();
            self.step();
            while self.char != Some('"')
                invariant
                    q < chars.len(),
                    chars[q] == '"',
                    0 <= cur,
                    self.well_formed(),
                    self.chars == old(self).chars,
                    self.chars@ == chars,
                    self.tokens == old(self).tokens,
                    self.input == old(self).input,
                    cur < self.cur <= q,
                    closing_quote(chars, cur) is Some,
                    string@ == chars.subrange(cur + 1, self.cur as int),
                decreases chars.len() - self.cur,
            {
                let ghost before = string@;
                let ch = self.current_char();
                string_push(&mut string, ch);
                assert(string@ =~= chars.subrange(cur + 1, self.cur + 1));
                self.step();
            }
            self.push_token(string, TokenKind::String);
            assert(tokens_view(self.tokens@) =~= old_tokens + seq![
                stok(chars.subrange(cur + 1, self.cur as int), TokenKind::String),
            ]);
            return Ok(());
        }
        let pk = self.peek_char();
        if let Some(kind) = pair_kind(c, pk) {
            let mut v = char_to_string(c);
            string_push(&mut v, pk);
            assert(v@ =~= seq![c, pk]);
            self.step();
            self.push_token(v, kind);
            assert(tokens_view(self.tokens@) =~= old_tokens + seq![stok(seq![c, pk], kind)]);
            return Ok(());
        }
        let single = single_kind(c);
        if let Some(kind) = single {
            self.push_token(char_to_string(c), kind);
            assert(tokens_view(self.tokens@) =~= old_tokens + seq![stok(seq![c], kind)]);
            return Ok(());
        }
        if char_is_alphabetic(c) {
            proof {
                lemma_word_end(chars, cur);
            }
            let mut word = char_to_string(c);
            assert(word@ =~= chars.subrange(cur, cur + 1));
            loop
                invariant
                    self.well_formed(),
                    self.chars == old(self).chars,
                    self.chars@ == chars,
                    self.tokens == old(self).tokens,
                    self.input == old(self).input,
                    0 <= cur <= self.cur < chars.len(),
                    word_end(chars, self.cur as int) == word_end(chars, cur),
                    word@ == chars.subrange(cur, self.cur + 1),
                ensures
                    self.well_formed(),
                    self.chars == old(self).chars,
                    self.chars@ == chars,
                    self.tokens == old(self).tokens,
                    self.input == old(self).input,
                    self.cur == word_end(chars, cur),
                    word@ == chars.subrange(cur, self.cur + 1),
                decreases chars.len() - self.cur,
            {
                let pk = self.peek_char();
                let more = char_is_alphanumeric(pk) || pk == '_';
                if !more {
                    break;
                }
                let ghost before = word@;
                self.step();
                let ch = self.current_char();
                string_push(&mut word, ch);
                let ghost np = self.cur as int;
                assert(chars.subrange(cur, np + 1) =~= chars.subrange(cur, np).push(chars[np]));
                assert(before =~= chars.subrange(cur, np));
            }
            self.push_token(word, TokenKind::Word);
            assert(tokens_view(self.tokens@) =~= old_tokens + seq![
                stok(chars.subrange(cur, self.cur + 1), TokenKind::Word),
            ]);
            return Ok(());
        }
        if '0' <= c && c <= '9' {
            proof {
                lemma_number_end(chars, cur);
            }
            let mut number = char_to_string(c);
            assert(number@ =~= chars.subrange(cur, cur + 1));
            loop
                invariant
                    self.well_formed(),
                    self.chars == old(self).chars,
                    self.chars@ == chars,
                    self.tokens == old(self).tokens,
                    self.input == old(self).input,
                    0 <= cur <= self.cur < chars.len(),
                    number_end(chars, self.cur as int) == number_end(chars, cur),
                    number@ == chars.subrange(cur, self.cur + 1),
                ensures
                    self.well_formed(),
                    self.chars == old(self).chars,
                    self.chars@ == chars,
                    self.tokens == old(self).tokens,
                    self.input == old(self).input,
                    self.cur == number_end(chars, cur),
                    number@ == chars.subrange(cur, self.cur + 1),
                decreases chars.len() - self.cur,
            {
                let pk = self.peek_char();
                if !char_is_numeric(pk) {
                    break;
                }
                let ghost before = number@;
                self.step();
                let ch = self.current_char();
                string_push(&mut number, ch);
                let ghost np = self.cur as int;
                assert(chars.subrange(cur, np + 1) =~= chars.subrange(cur, np).push(chars[np]));
                assert(before =~= chars.subrange(cur, np));
            }
            self.push_token(number, TokenKind::Number);
            assert(tokens_view(self.tokens@) =~= old_tokens + seq![
                stok(chars.subrange(cur, self.cur + 1), TokenKind::Number),
            ]);
            return Ok(());
        }
        let mut msg = owned("Unknown character: ");
        string_push(&mut msg, c);
        Err(msg)
    }

    /// Tokenizes the rest of the input (see [`lang_lex`]). Fails at the first
    /// character that starts no token; the tokens emitted before the error stay.
    pub fn tokenize(&mut self) -> (res: Result<(), String>)
        requires
            old(self).well_formed(),
            !(lang_lex(old(self).input_chars(), old(self).cursor()) is Stuck),
        ensures
            final(self).well_formed(),
            final(self).input_chars() == old(self).input_chars(),
            match lang_lex(old(self).input_chars(), old(self).cursor()) {
                LangLexOutcome::Done(t) => res is Ok && final(self).lexed() == old(self).lexed()
                    + t && final(self).cursor() == final(self).input_chars().len(),
                LangLexOutcome::Failed(t, m, at) => res matches Err(e) && e@ == m
                    && final(self).lexed() == old(self).lexed() + t && final(self).cursor() == at,
                LangLexOutcome::Stuck => false,
            },
    {
        let ghost chars = self.chars@;
        let ghost start = self.cur as int;
        let ghost old_tokens = tokens_view(self.tokens@);
        while self.char.is_some()
            invariant
                self.well_formed(),
                self.chars@ == chars,
                chars == old(self).chars@,
                start == old(self).cur,
                old_tokens == tokens_view(old(self).tokens@),
                start <= self.cur,
                !(lang_lex(chars, self.cur as int) is Stuck),
                match lang_lex(chars, start) {
                    LangLexOutcome::Done(t) => lang_lex(chars, self.cur as int) matches LangLexOutcome::Done(r)
                        && old_tokens + t == tokens_view(self.tokens@) + r,
                    LangLexOutcome::Failed(t, m, at) => lang_lex(chars, self.cur as int) matches LangLexOutcome::Failed(r, m2, at2)
                        && m2 == m && at2 == at && old_tokens + t == tokens_view(self.tokens@) + r,
                    LangLexOutcome::Stuck => false,
                },
            decreases chars.len() - self.cur,
        {
            let ghost c0 = self.cur as int;
            let ghost before = tokens_view(self.tokens@);
            proof {
                lemma_lang_lex_char_advance(chars, c0);
            }
            let r = self.lex_char();
            match r {
                Ok(()) => {},
                Err(e) => {
                    proof {
                        assert(before + seq![] =~= before);
                        let st = lang_lex_char(chars, c0);
                        assert(st is Fail);
                        if let LangStep::Fail(m) = st {
                            assert(lang_lex(chars, c0) == LangLexOutcome::Failed(seq![], m, c0));
                        }
                    }
                    return Err(e);
                },
            }
            self.step();
            proof {
                let st = lang_lex_char(chars, c0);
                if let LangStep::Emit(t, p) = st {
                    assert(tokens_view(self.tokens@) == before + t);
                    match lang_lex(chars, self.cur as int) {
                        LangLexOutcome::Done(r2) => {
                            assert(before + (t + r2) =~= (before + t) + r2);
                        },
                        LangLexOutcome::Failed(r2, m, at) => {
                            assert(before + (t + r2) =~= (before + t) + r2);
                        },
                        LangLexOutcome::Stuck => {},
                    }
                }
            }
        }
        proof {
            assert(tokens_view(self.tokens@) + seq![] =~= tokens_view(self.tokens@));
        }
        Ok(())
    }

    /// The tokens produced so far.
    pub fn tokens(&self) -> (ts: Vec<Token>)
        ensures
            tokens_view(ts@) == self.lexed(),
    {
        self.tokens.clone()
    }
}

fn single_kind(c: char) -> (res: Option<TokenKind>)
    ensures
        res == lang_single_kind(c),
{
    if c == '(' {
        Some(TokenKind::LeftParenthesis)
    } else if c == ')' {
        Some(TokenKind::RightParenthesis)
    } else if c == ';' {
        Some(TokenKind::Semicolon)
    } else if c == '=' {
        Some(TokenKind::Equality)
    } else if c == ':' {
        Some(TokenKind::Colon)
    } else if c == '+' {
        Some(TokenKind::Add)
    } else if c == '⊢' {
        Some(TokenKind::Turnstile)
    } else if c == '→' {
        Some(TokenKind::Implies)
    } else if c == '¬' {
        Some(TokenKind::Negation)
    } else if c == '∀' {
        Some(TokenKind::ForAll)
    } else if c == '∃' {
        Some(TokenKind::Exists)
    } else if c == '𝜑' || c == '𝜓' || c == '𝜒' {
        Some(TokenKind::WFF)
    } else if c == '&' {
        Some(TokenKind::BitwiseAnd)
    } else if c == '⇒' {
        Some(TokenKind::HypothesisEnd)
    } else if c == 'A' || c == 'B' || c == 'C' {
        Some(TokenKind::Identifier)
    } else if c == '𝑡' || c == '𝑢' || c == '𝑣' || c == '𝑥' || c == '𝑦' || c == '𝑧' || c == '𝑤' {
        Some(TokenKind::SetVar)
    } else if c == '∈' {
        Some(TokenKind::ElementOf)
    } else if c == '↔' {
        Some(TokenKind::Biconditional)
    } else if c == '∧' {
        Some(TokenKind::Conjunction)
    } else if c == '∨' {
        Some(TokenKind::Disjunction)
    } else if c == '-' {
        Some(TokenKind::Subtract)
    } else if c == '*' {
        Some(TokenKind::Multiply)
    } else if c == '%' {
        Some(TokenKind::Modulo)
    } else if c == '{' {
        Some(TokenKind::LCurlyBracket)
    } else if c == '}' {
        Some(TokenKind::RCurlyBracket)
    } else if c == '[' {
        Some(TokenKind::LBracket)
    } else if c == ']' {
        Some(TokenKind::RBracket)
    } else if c == ',' {
        Some(TokenKind::Comma)
    } else if c == '.' {
        Some(TokenKind::Period)
    } else if c == '<' {
        Some(TokenKind::LessThan)
    } else if c == '>' {
        Some(TokenKind::GreaterThan)
    } else if c == '|' {
        Some(TokenKind::BitwiseOr)
    } else if c == '^' {
        Some(TokenKind::BitwiseXor)
    } else if c == '~' {
        Some(TokenKind::Negation)
    } else {
        None
    }
}

fn pair_kind(c: char, next: char) -> (res: Option<TokenKind>)
    ensures
        res == lang_pair_kind(c, next),
{
    if c == '=' && next == '=' {
        Some(TokenKind::IsEqual)
    } else if c == '.' && next == '.' {
        Some(TokenKind::Range)
    } else if c == '<' && next == '<' {
        Some(TokenKind::ShiftLeft)
    } else if c == '>' && next == '>' {
        Some(TokenKind::ShiftRight)
    } else if c == '|' && next == '|' {
        Some(TokenKind::Or)
    } else if c == '&' && next == '&' {
        Some(TokenKind::And)
    } else {
        None
    }
}

} // verus!

verus! {

proof fn lemma_no_closing_quote(chars: Seq<char>, p: int)
    requires
        0 <= p,
        closing_quote(chars, p) is None,
    ensures
        forall|k: int| p < k < chars.len() ==> chars[k] != '"',
    decreases chars.len() - p,
{
    if p + 1 < chars.len() {
        lemma_no_closing_quote(chars, p + 1);
    }
}

/// Lexing ends unless it meets, where a token starts, a quote that no later
/// quote closes: it gets stuck only there.
pub proof fn law_lang_lex_stuck_only_at_unclosed_quote(chars: Seq<char>, cur: int)
    requires
        0 <= cur,
    ensures
        lang_lex(chars, cur) is Stuck ==> exists|i: int|
            cur <= i < chars.len() && chars[i] == '"' && (forall|k: int| i < k < chars.len() ==> chars[k] != '"'),
    decreases chars.len() - cur,
{
    if cur < chars.len() {
        lemma_lang_lex_char_advance(chars, cur);
        match lang_lex_char(chars, cur) {
            LangStep::Emit(t, p) => {
                let next = if p + 1 < chars.len() {
                    p + 1
                } else {
                    chars.len() as int
                };
                if next > cur {
                    law_lang_lex_stuck_only_at_unclosed_quote(chars, next);
                }
            },
            LangStep::Stuck => {
                assert(chars[cur] == '"');
                lemma_no_closing_quote(chars, cur);
            },
            _ => {},
        }
    }
}

} // verus!

verus! {

/// Whether lexing `input` ends, with its tokens or an error, rather than
/// getting stuck at a string literal that is never closed.
pub fn lexes(input: &str) -> (res: bool)
    ensures
        res == !(lang_lex(input@, 0) is Stuck),
{
    let chars = chars_of(input);
    let ghost cs = chars@;
    let n = chars.len();
    let mut cur: usize = 0;
    while cur < n
        invariant
            cs == chars@,
            cs == input@,
            n == chars.len(),
            cur <= n,
            (lang_lex(cs, cur as int) is Stuck) == (lang_lex(cs, 0) is Stuck),
        decreases n - cur,
    {
        proof {
            lemma_lang_lex_char_advance(cs, cur as int);
            lemma_word_end(cs, cur as int);
            lemma_number_end(cs, cur as int);
            lemma_closing_quote(cs, cur as int);
        }
        let c = chars[cur];
        let pk = if cur + 1 < n {
            chars[cur + 1]
        } else {
            '\0'
        };
        assert(pk == char_or(cs, cur + 1, '\0'));
        let next: usize;
        if c == ' ' || c == '\n' {
            next = cur + 1;
        } else if c == '/' {
            if pk == '/' {
                assert(lang_lex(cs, n as int) is Done);
                assert(!(lang_lex(cs, cur as int) is Stuck));
                return true;
            }
            next = cur + 1;
        } else if c == '"' {
            let mut q = cur + 1;
            while q < n && chars[q] != '"'
                invariant
                    cs == chars@,
                    n == chars.len(),
                    cur < q <= n,
                    closing_quote(cs, cur as int) == closing_quote(cs, q - 1),
                decreases n - q,
            {
                q += 1;
            }
            if q >= n {
                return false;
            }
            next = q + 1;
        } else if pair_kind(c, pk).is_some() {
            next = cur + 2;
        } else if single_kind(c).is_some() {
            next = cur + 1;
        } else if char_is_alphabetic(c) {
            let mut e = cur;
            while e + 1 < n && (char_is_alphanumeric(chars[e + 1]) || chars[e + 1] == '_')
                invariant
                    cs == chars@,
                    n == chars.len(),
                    cur <= e < n,
                    word_end(cs, e as int) == word_end(cs, cur as int),
                decreases n - e,
            {
                e += 1;
            }
            next = e + 1;
        } else if '0' <= c && c <= '9' {
            let mut e = cur;
            while e + 1 < n && char_is_numeric(chars[e + 1])
                invariant
                    cs == chars@,
                    n == chars.len(),
                    cur <= e < n,
                    number_end(cs, e as int) == number_end(cs, cur as int),
                decreases n - e,
            {
                e += 1;
            }
            next = e + 1;
        } else {
            return true;
        }
        cur = next;
    }
    true
}

} // verus!
