use fox_lang::metamath::MetaMathLexer;
use fox_lang::lexer::TokenKind;

#[test]
fn metamath_test_ax1() {
    let input = "⊢ (𝜑 → (𝜓 → 𝜑))";
    let mut lexer = MetaMathLexer::new(input.to_string());
    lexer.tokenize().unwrap();

    let expected_tokens = vec![
        TokenKind::Turnstile,
        TokenKind::LeftParenthesis,
        TokenKind::Phi,
        TokenKind::Implies,
        TokenKind::LeftParenthesis,
        TokenKind::Psi,
        TokenKind::Implies,
        TokenKind::Phi,
        TokenKind::RightParenthesis,
        TokenKind::RightParenthesis,
    ];

    for (i, expected_kind) in expected_tokens.iter().enumerate() {
        assert_eq!(lexer.tokens()[i].kind, *expected_kind);
    }

    println!("{:?}", lexer.tokens());
}

#[test]
fn metamath_test_ax2() {
    let input = "⊢ ((𝜑 → (𝜓 → 𝜒)) → ((𝜑 → 𝜓) → (𝜑 → 𝜒)))";
    let mut lexer = MetaMathLexer::new(input.to_string());
    lexer.tokenize().unwrap();

    let expected_tokens = vec![
        TokenKind::Turnstile,
        TokenKind::LeftParenthesis,
        TokenKind::LeftParenthesis,
        TokenKind::Phi,
        TokenKind::Implies,
        TokenKind::LeftParenthesis,
        TokenKind::Psi,
        TokenKind::Implies,
        TokenKind::Chi,
        TokenKind::RightParenthesis,
        TokenKind::RightParenthesis,
        TokenKind::Implies,
        TokenKind::LeftParenthesis,
        TokenKind::LeftParenthesis,
        TokenKind::Phi,
        TokenKind::Implies,
        TokenKind::Psi,
        TokenKind::RightParenthesis,
        TokenKind::Implies,
        TokenKind::LeftParenthesis,
        TokenKind::Phi,
        TokenKind::Implies,
        TokenKind::Chi,
        TokenKind::RightParenthesis,
        TokenKind::RightParenthesis,
    ];

    for (i, expected_kind) in expected_tokens.iter().enumerate() {
        assert_eq!(lexer.tokens()[i].kind, *expected_kind);
    }
}

#[test]
fn metamath_test_ax3() {
    let input = "⊢ ((¬ 𝜑 → ¬ 𝜓) → (𝜓 → 𝜑))";
    let mut lexer = MetaMathLexer::new(input.to_string());
    lexer.tokenize().unwrap();

    let expected_tokens = vec![
        TokenKind::Turnstile,
        TokenKind::LeftParenthesis,
        TokenKind::LeftParenthesis,
        TokenKind::Negation,
        TokenKind::Phi,
        TokenKind::Implies,
        TokenKind::Negation,
        TokenKind::Psi,
        TokenKind::RightParenthesis,
        TokenKind::Implies,
        TokenKind::LeftParenthesis,
        TokenKind::Psi,
        TokenKind::Implies,
        TokenKind::Phi,
        TokenKind::RightParenthesis,
        TokenKind::RightParenthesis,
    ];

    for (i, expected_kind) in expected_tokens.iter().enumerate() {
        assert_eq!(lexer.tokens()[i].kind, *expected_kind);
    }
}

#[test]
fn metamath_test_ax_gen() {
    let input = "⊢ ∀𝑥𝜑";
    let mut lexer = MetaMathLexer::new(input.to_string());
    lexer.tokenize().unwrap();

    let expected_tokens = vec![
        TokenKind::Turnstile,
        TokenKind::ForAll,
        TokenKind::BoundX,
        TokenKind::Phi,
    ];

    for (i, expected_kind) in expected_tokens.iter().enumerate() {
        assert_eq!(lexer.tokens()[i].kind, *expected_kind);
    }
}

#[test]
fn metamath_test_ax_4() {
    let input = "⊢ (∀𝑥(𝜑 → 𝜓) → (∀𝑥𝜑 → ∀𝑥𝜓))";
    let mut lexer = MetaMathLexer::new(input.to_string());
    lexer.tokenize().unwrap();

    let expected_tokens = vec![
        TokenKind::Turnstile,
        TokenKind::LeftParenthesis,
        TokenKind::ForAll,
        TokenKind::BoundX,
        TokenKind::LeftParenthesis,
        TokenKind::Phi,
        TokenKind::Implies,
        TokenKind::Psi,
        TokenKind::RightParenthesis,
        TokenKind::Implies,
        TokenKind::LeftParenthesis,
        TokenKind::ForAll,
        TokenKind::BoundX,
        TokenKind::Phi,
        TokenKind::Implies,
        TokenKind::ForAll,
        TokenKind::BoundX,
        TokenKind::Psi,
        TokenKind::RightParenthesis,
        TokenKind::RightParenthesis,
    ];

    for (i, expected_kind) in expected_tokens.iter().enumerate() {
        assert_eq!(lexer.tokens()[i].kind, *expected_kind);
    }
}

