use fox_lang::lang_lexer::LangLexer;
use fox_lang::lexer::TokenKind;

#[test]
fn basic_lex() {
    let input = "print(\"hello world!\");";
    let mut lexer = LangLexer::new(input);
    lexer.tokenize().expect("unexpected failure");
    let tokens = lexer.tokens();
    println!("{:?}", tokens);
}

#[test]
fn basic_types() {
    let input = "type x;";
    let mut lexer = LangLexer::new(input);
    lexer.tokenize().expect("unexpected failure");
    let tokens = lexer.tokens();
    println!("{:?}", tokens);
}

#[test]
fn basic_declarations() {
    let input = "let x : Nat = 10;";
    let mut lexer = LangLexer::new(input);
    lexer.tokenize().expect("unexpected failure");
    let tokens = lexer.tokens();
    println!("{:?}", tokens);
}

#[test]
fn lang_lexer_mm_expressions_in_fox() {
    let input = "let ax1 : Expr = (𝜓 → 𝜑);";
    let mut lexer = LangLexer::new(input);
    lexer.tokenize().expect("unexpected failure");
    let tokens = lexer.tokens();
    println!("{:?}", tokens);
}

// MM focused tests
#[test]
fn lang_lexer_test_ax1() {
    let input = "⊢ (𝜑 → (𝜓 → 𝜑))";
    let mut lexer = LangLexer::new(input);
    lexer.tokenize().expect("unexpected failure");

    let expected_tokens = vec![
        TokenKind::Turnstile,
        TokenKind::LeftParenthesis,
        TokenKind::WFF,
        TokenKind::Implies,
        TokenKind::LeftParenthesis,
        TokenKind::WFF,
        TokenKind::Implies,
        TokenKind::WFF,
        TokenKind::RightParenthesis,
        TokenKind::RightParenthesis,
    ];

    for (i, expected_kind) in expected_tokens.iter().enumerate() {
        assert_eq!(lexer.tokens()[i].kind, *expected_kind);
    }

    println!("{:?}", lexer.tokens());
}

#[test]
fn lang_lexer_test_ax2() {
    let input = "⊢ ((𝜑 → (𝜓 → 𝜒)) → ((𝜑 → 𝜓) → (𝜑 → 𝜒)))";
    let mut lexer = LangLexer::new(input);
    lexer.tokenize().expect("unexpected failure");

    let expected_tokens = vec![
        TokenKind::Turnstile,
        TokenKind::LeftParenthesis,
        TokenKind::LeftParenthesis,
        TokenKind::WFF,
        TokenKind::Implies,
        TokenKind::LeftParenthesis,
        TokenKind::WFF,
        TokenKind::Implies,
        TokenKind::WFF,
        TokenKind::RightParenthesis,
        TokenKind::RightParenthesis,
        TokenKind::Implies,
        TokenKind::LeftParenthesis,
        TokenKind::LeftParenthesis,
        TokenKind::WFF,
        TokenKind::Implies,
        TokenKind::WFF,
        TokenKind::RightParenthesis,
        TokenKind::Implies,
        TokenKind::LeftParenthesis,
        TokenKind::WFF,
        TokenKind::Implies,
        TokenKind::WFF,
        TokenKind::RightParenthesis,
        TokenKind::RightParenthesis,
    ];

    for (i, expected_kind) in expected_tokens.iter().enumerate() {
        assert_eq!(lexer.tokens()[i].kind, *expected_kind);
    }
}

#[test]
fn lang_lexer_test_ax3() {
    let input = "⊢ ((¬ 𝜑 → ¬ 𝜓) → (𝜓 → 𝜑))";
    let mut lexer = LangLexer::new(input);
    lexer.tokenize().expect("unexpected failure");

    let expected_tokens = vec![
        TokenKind::Turnstile,
        TokenKind::LeftParenthesis,
        TokenKind::LeftParenthesis,
        TokenKind::Negation,
        TokenKind::WFF,
        TokenKind::Implies,
        TokenKind::Negation,
        TokenKind::WFF,
        TokenKind::RightParenthesis,
        TokenKind::Implies,
        TokenKind::LeftParenthesis,
        TokenKind::WFF,
        TokenKind::Implies,
        TokenKind::WFF,
        TokenKind::RightParenthesis,
        TokenKind::RightParenthesis,
    ];

    for (i, expected_kind) in expected_tokens.iter().enumerate() {
        assert_eq!(lexer.tokens()[i].kind, *expected_kind);
    }
}

#[test]
fn lang_lexer_test_ax_gen() {
    let input = "⊢ ∀𝑥𝜑";
    let mut lexer = LangLexer::new(input);
    lexer.tokenize().expect("unexpected failure");

    let expected_tokens = vec![
        TokenKind::Turnstile,
        TokenKind::ForAll,
        TokenKind::SetVar,
        TokenKind::WFF,
    ];

    for (i, expected_kind) in expected_tokens.iter().enumerate() {
        assert_eq!(lexer.tokens()[i].kind, *expected_kind);
    }
}

#[test]
fn lang_lexer_test_ax_4() {
    let input = "⊢ (∀𝑥(𝜑 → 𝜓) → (∀𝑥𝜑 → ∀𝑥𝜓))";
    let mut lexer = LangLexer::new(input);
    lexer.tokenize().expect("unexpected failure");

    let expected_tokens = vec![
        TokenKind::Turnstile,
        TokenKind::LeftParenthesis,
        TokenKind::ForAll,
        TokenKind::SetVar,
        TokenKind::LeftParenthesis,
        TokenKind::WFF,
        TokenKind::Implies,
        TokenKind::WFF,
        TokenKind::RightParenthesis,
        TokenKind::Implies,
        TokenKind::LeftParenthesis,
        TokenKind::ForAll,
        TokenKind::SetVar,
        TokenKind::WFF,
        TokenKind::Implies,
        TokenKind::ForAll,
        TokenKind::SetVar,
        TokenKind::WFF,
        TokenKind::RightParenthesis,
        TokenKind::RightParenthesis,
    ];

    for (i, expected_kind) in expected_tokens.iter().enumerate() {
        assert_eq!(lexer.tokens()[i].kind, *expected_kind);
    }
}

