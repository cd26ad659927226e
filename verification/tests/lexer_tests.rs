use fox_lang::lexer::{DefaultLexer, TokenKind};
use fox_lang::parser::Lexer;

#[test]
fn split_strings() {
    let input = "Hello, world!";
    let mut lexer = DefaultLexer::new(input.to_string());
    lexer.tokenize();

    assert_eq!(lexer.tokens().len(), 4);
}

#[test]
fn parse_logical_expression() {
    let input = "(A -> B)";
    let mut lexer = DefaultLexer::new(input.to_string());
    lexer.tokenize();
    println!("{:?}", lexer.tokens());
    assert_eq!(lexer.tokens().len(), 5);
}

#[test]
fn lex_negation() {
    let input = "~A";
    let mut lexer = DefaultLexer::new(input.to_string());
    lexer.tokenize();
    println!("{:?}", lexer.tokens());
    assert_eq!(lexer.tokens().len(), 2);
}

#[test]
fn lex_turnstile() {
    let input = "|-";
    let mut lexer = DefaultLexer::new(input.to_string());
    lexer.tokenize();
    println!("{:?}", lexer.tokens());
    assert_eq!(lexer.tokens().len(), 1);
}

#[test]
fn default_lexer_kinds_and_values() {
    let mut lexer = DefaultLexer::new("(A -> Bc) && ~x |".to_string());
    lexer.tokenize();
    let tokens = lexer.tokens();
    let kinds: Vec<TokenKind> = tokens.iter().map(|t| t.kind).collect();
    assert_eq!(
        kinds,
        vec![
            TokenKind::LeftParenthesis,
            TokenKind::Identifier,
            TokenKind::Implies,
            TokenKind::Identifier,
            TokenKind::RightParenthesis,
            TokenKind::Conjunction,
            TokenKind::Negation,
            TokenKind::Identifier,
            TokenKind::Pipe,
        ]
    );
    assert_eq!(tokens[2].value, "->");
    assert_eq!(tokens[3].value, "Bc");
    assert_eq!(tokens[5].value, "&&");
}

#[test]
fn default_lexer_unicode_formula() {
    let mut lexer = DefaultLexer::new("(𝜑 → ∀𝜓) ⇒ &".to_string());
    lexer.tokenize();
    let kinds: Vec<TokenKind> = lexer.tokens().iter().map(|t| t.kind).collect();
    assert_eq!(
        kinds,
        vec![
            TokenKind::LeftParenthesis,
            TokenKind::WFF,
            TokenKind::Implies,
            TokenKind::ForAll,
            TokenKind::WFF,
            TokenKind::RightParenthesis,
            TokenKind::HypothesisEnd,
            TokenKind::HypothesisConjunction,
        ]
    );
}

#[test]
fn default_lexer_peek_and_next_char() {
    let mut lexer = DefaultLexer::new("ab".to_string());
    assert_eq!(lexer.peek(), 'b');
    lexer.next_char();
    assert_eq!(lexer.peek(), ' ');
}
