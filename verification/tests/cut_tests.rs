use fox_lang::cut::{reduce, Axiom};
use fox_lang::parser::Parser;
use fox_lang::node::Node;

#[test]
fn test_simple_reduce() {
    let input = "(A -> B)";
    let mut parser = Parser::new(input.to_string());

    let node = parser.parse();

    let result = reduce(node.unwrap());

    // assert that the result is A, B
    let (left, right) = result.unwrap();

    if let Node::Identifier { value } = left {
        assert_eq!(value, "A");
    } else {
        panic!("Expected Node::Identifier");
    }
    if let Node::Identifier { value } = right {
        assert_eq!(value, "B");
    } else {
        panic!("Expected Node::Identifier");
    }
}

