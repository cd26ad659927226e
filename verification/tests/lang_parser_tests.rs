use fox_lang::lang_parser::LangParser;
use fox_lang::value::Value;
use fox_lang::node::Node;

#[test]
fn print() {
    let input = "print(\"hello world!\");";

    let mut parser = LangParser::new(input);

    let ast = parser.parse().expect("unexpected failure");
    println!("{:?}", ast);
}

#[test]
fn ignore_comments() {
    let input = "
    print(\"hello world!\");
    // this is a comment
    print(\"there was a comment before this\");";

    let mut parser = LangParser::new(input);

    let ast = parser.parse().expect("unexpected failure");
    println!("{:?}", ast);
}

#[test]
fn variables() {
    let input = "let x = 10;";

    let mut parser = LangParser::new(input);

    let ast = parser.parse().expect("unexpected failure");
    println!("{:?}", ast);
}

#[test]
fn custom_types() {
    let input = "type nat;";
    let mut parser = LangParser::new(input);
    let ast = parser.parse().expect("unexpected failure");
    println!("{:?}", ast);
}

#[test]
fn multi_line_variables() {
    let input = "let x = 1;\
    let y = 2;";
    let mut parser = LangParser::new(input);
    println!("{:?}", parser.tokens());
    let ast = parser.parse().expect("unexpected failure");
    println!("{:?}", ast);
}

#[test]
fn addition() {
    let input = "let x = 1 + 2;";
    let mut parser = LangParser::new(input);
    let ast = parser.parse().expect("unexpected failure");
    println!("{:?}", ast);

    assert_eq!(ast.nodes.len(), 1);
}

#[test]
fn subtraction() {
    let input = "let x = 1 - 2;";
    let mut parser = LangParser::new(input);
    let ast = parser.parse().expect("unexpected failure");

    assert_eq!(ast.nodes.len(), 1);
}

#[test]
fn multiplication() {
    let input = "let x = 1 * 2;";
    let mut parser = LangParser::new(input);
    let ast = parser.parse().expect("unexpected failure");

    assert_eq!(ast.nodes.len(), 1);
}

#[test]
fn division() {
    let input = "let x = 1 / 2;";
    let mut parser = LangParser::new(input);
    let ast = parser.parse().expect("unexpected failure");

    assert_eq!(ast.nodes.len(), 1);
}

#[test]
fn addition_with_variables() {
    let input = "let x = 1;\
    let y = 2;\
    let z = x + y;";
    let mut parser = LangParser::new(input);
    let ast = parser.parse().expect("unexpected failure");
    println!("{:?}", ast);

    assert_eq!(ast.nodes.len(), 3);
}

#[test]
fn lang_parser_mm_expressions_in_fox() {
    let input = "let ax = (𝜓 → 𝜑);";
    let mut parser = LangParser::new(input);
    let ast = parser.parse().expect("unexpected failure");
    println!("{:?}", ast);

}

#[test]
fn error_handling() {
    // add checks that the parser returns an error when it should
    // for example, having an expression not terminate with a semicolon
}
