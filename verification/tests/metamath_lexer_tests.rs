use fox_lang::metamath_lexer::MetaMathLexer;
use fox_lang::lexer::TokenKind;
use fox_lang::parser::Lexer;

#[test]
fn metamath_lexer_test_ax1() {
    let input = "⊢ (𝜑 → (𝜓 → 𝜑))";
    let mut lexer = MetaMathLexer::new(input.to_string());
    lexer.tokenize();

    let expected_tokens = vec![
        TokenKind::Turnstile,
        TokenKind::LeftParenthesis,
        TokenKind::Identifier,
        TokenKind::Implies,
        TokenKind::LeftParenthesis,
        TokenKind::Identifier,
        TokenKind::Implies,
        TokenKind::Identifier,
        TokenKind::RightParenthesis,
        TokenKind::RightParenthesis,
    ];

    for (i, expected_kind) in expected_tokens.iter().enumerate() {
        assert_eq!(lexer.tokens()[i].kind, *expected_kind);
    }

    println!("{:?}", lexer.tokens());
}

#[test]
fn metamath_lexer_test_ax2() {
    let input = "⊢ ((𝜑 → (𝜓 → 𝜒)) → ((𝜑 → 𝜓) → (𝜑 → 𝜒)))";
    let mut lexer = MetaMathLexer::new(input.to_string());
    lexer.tokenize();

    let expected_tokens = vec![
        TokenKind::Turnstile,
        TokenKind::LeftParenthesis,
        TokenKind::LeftParenthesis,
        TokenKind::Identifier,
        TokenKind::Implies,
        TokenKind::LeftParenthesis,
        TokenKind::Identifier,
        TokenKind::Implies,
        TokenKind::Identifier,
        TokenKind::RightParenthesis,
        TokenKind::RightParenthesis,
        TokenKind::Implies,
        TokenKind::LeftParenthesis,
        TokenKind::LeftParenthesis,
        TokenKind::Identifier,
        TokenKind::Implies,
        TokenKind::Identifier,
        TokenKind::RightParenthesis,
        TokenKind::Implies,
        TokenKind::LeftParenthesis,
        TokenKind::Identifier,
        TokenKind::Implies,
        TokenKind::Identifier,
        TokenKind::RightParenthesis,
        TokenKind::RightParenthesis,
    ];

    for (i, expected_kind) in expected_tokens.iter().enumerate() {
        assert_eq!(lexer.tokens()[i].kind, *expected_kind);
    }
}

#[test]
fn metamath_lexer_test_ax3() {
    let input = "⊢ ((¬ 𝜑 → ¬ 𝜓) → (𝜓 → 𝜑))";
    let mut lexer = MetaMathLexer::new(input.to_string());
    lexer.tokenize();

    let expected_tokens = vec![
        TokenKind::Turnstile,
        TokenKind::LeftParenthesis,
        TokenKind::LeftParenthesis,
        TokenKind::Negation,
        TokenKind::Identifier,
        TokenKind::Implies,
        TokenKind::Negation,
        TokenKind::Identifier,
        TokenKind::RightParenthesis,
        TokenKind::Implies,
        TokenKind::LeftParenthesis,
        TokenKind::Identifier,
        TokenKind::Implies,
        TokenKind::Identifier,
        TokenKind::RightParenthesis,
        TokenKind::RightParenthesis,
    ];

    for (i, expected_kind) in expected_tokens.iter().enumerate() {
        assert_eq!(lexer.tokens()[i].kind, *expected_kind);
    }
}

#[test]
fn metamath_lexer_test_ax_gen() {
    let input = "⊢ ∀𝑥𝜑";
    let mut lexer = MetaMathLexer::new(input.to_string());
    lexer.tokenize();

    let expected_tokens = vec![
        TokenKind::Turnstile,
        TokenKind::ForAll,
        TokenKind::Identifier,
        TokenKind::Identifier,
    ];

    for (i, expected_kind) in expected_tokens.iter().enumerate() {
        assert_eq!(lexer.tokens()[i].kind, *expected_kind);
    }
}

#[test]
fn metamath_lexer_test_ax_4() {
    let input = "⊢ (∀𝑥(𝜑 → 𝜓) → (∀𝑥𝜑 → ∀𝑥𝜓))";
    let mut lexer = MetaMathLexer::new(input.to_string());
    lexer.tokenize();

    let expected_tokens = vec![
        TokenKind::Turnstile,
        TokenKind::LeftParenthesis,
        TokenKind::ForAll,
        TokenKind::Identifier,
        TokenKind::LeftParenthesis,
        TokenKind::Identifier,
        TokenKind::Implies,
        TokenKind::Identifier,
        TokenKind::RightParenthesis,
        TokenKind::Implies,
        TokenKind::LeftParenthesis,
        TokenKind::ForAll,
        TokenKind::Identifier,
        TokenKind::Identifier,
        TokenKind::Implies,
        TokenKind::ForAll,
        TokenKind::Identifier,
        TokenKind::Identifier,
        TokenKind::RightParenthesis,
        TokenKind::RightParenthesis,
    ];

    for (i, expected_kind) in expected_tokens.iter().enumerate() {
        assert_eq!(lexer.tokens()[i].kind, *expected_kind);
    }
}

