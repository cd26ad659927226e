use fox_lang::node::{Node, OperatorKind};
use fox_lang::parser::Parser;

#[test]
fn parse() {
    let input = "(A -> B)";

    let mut parser = Parser::new(input.to_string());
    let res = parser.parse();

    // Assert that the result is Ok
    assert!(res.is_ok());

    let x = res.unwrap();
    println!("{:?}", x);
}



#[test]
fn test_nested_balanced() {
    let input = "((A -> B) -> (C -> D))";

    let mut parser = Parser::new(input.to_string());
    let res = parser.parse();
    println!("{:?}", res);
    assert!(res.is_ok());

    let x = res.unwrap();

    if let Node::BinaryExpression {left, operator, right} = x {
        assert_eq!(operator, OperatorKind::Implies);

        if let Node::BinaryExpression {left: left_left, operator: left_operator, right: left_right} = *left {
            assert_eq!(left_operator, OperatorKind::Implies);

            if let Node::Identifier {value} = *left_left {
                assert_eq!(value, "A");
            } else {
                panic!("Expected an identifier");
            }

            if let Node::Identifier {value} = *left_right {
                assert_eq!(value, "B");
            } else {
                panic!("Expected an identifier");
            }
        } else {
            panic!("Expected a binary expression");
        }

        if let Node::BinaryExpression {left: right_left, operator: right_operator, right: right_right} = *right {
            assert_eq!(right_operator, OperatorKind::Implies);

            if let Node::Identifier {value} = *right_left {
                assert_eq!(value, "C");
            } else {
                panic!("Expected an identifier");
            }

            if let Node::Identifier {value} = *right_right {
                assert_eq!(value, "D");
            } else {
                panic!("Expected an identifier");
            }
        } else {
            panic!("Expected a binary expression");
        }
    }

}

#[test]
fn test_sub_left() {
    let input = "((A -> C) -> B)";

    let mut parser = Parser::new(input.to_string());
    let res = parser.parse();

    let x = res.unwrap();
    println!("{:?}", x);

    if let Node::BinaryExpression {left, operator, right} = x {
        assert_eq!(operator, OperatorKind::Implies);

        if let Node::BinaryExpression {left: left_left, operator: left_operator, right: left_right} = *left {
            assert_eq!(left_operator, OperatorKind::Implies);

            if let Node::Identifier {value} = *left_left {
                assert_eq!(value, "A");
            } else {
                panic!("Expected an identifier");
            }

            if let Node::Identifier {value} = *left_right {
                assert_eq!(value, "C");
            } else {
                panic!("Expected an identifier");
            }
        } else {
            panic!("Expected a binary expression");
        }

        if let Node::Identifier {value} = *right {
            assert_eq!(value, "B");
        } else {
            panic!("Expected an identifier");
        }
    }
}

#[test]
fn test_sub_right() {
    let input = "(A -> (B -> C))";

    let mut parser = Parser::new(input.to_string());
    let res = parser.parse();

    let x = res.unwrap();

    if let Node::BinaryExpression {left, operator, right} = x {
        assert_eq!(operator, OperatorKind::Implies);

        if let Node::Identifier {value} = *left {
            assert_eq!(value, "A");
        } else {
            panic!("Expected an identifier");
        }

        if let Node::BinaryExpression {left: right_left, operator: right_operator, right: right_right} = *right {
            assert_eq!(right_operator, OperatorKind::Implies);

            if let Node::Identifier {value} = *right_left {
                assert_eq!(value, "B");
            } else {
                panic!("Expected an identifier");
            }

            if let Node::Identifier {value} = *right_right {
                assert_eq!(value, "C");
            } else {
                panic!("Expected an identifier");
            }
        } else {
            panic!("Expected a binary expression");
        }
    }
}
