use lib_ruby_parser::calc::Parser;
use lib_ruby_parser::node::Node;

fn num(n: u32) -> Box<Node> {
    Box::new(Node::Number(n))
}

#[test]
fn test_parse() {
    let ast = Parser::new(b"22 + 3 ** 4 * (2 + 2) - 1").debug().parse();
    assert_eq!(
        ast,
        Node::Minus(
            Box::new(Node::Plus(
                num(22),
                Box::new(Node::Mult(
                    Box::new(Node::Pow(num(3), num(4))),
                    Box::new(Node::Parenthesized(Box::new(Node::Plus(num(2), num(2)))))
                ))
            )),
            num(1)
        )
    );
    assert_eq!(ast.eval(), 345);
}

#[test]
fn calc_left_associative_minus() {
    let ast = Parser::new(b"10 - 3 - 2").parse();
    assert_eq!(ast, Node::Minus(Box::new(Node::Minus(num(10), num(3))), num(2)));
    assert_eq!(ast.eval(), 5);
}

#[test]
fn calc_right_associative_pow() {
    let ast = Parser::new(b"2 ** 3 ** 2").parse();
    assert_eq!(ast, Node::Pow(num(2), Box::new(Node::Pow(num(3), num(2)))));
    assert_eq!(ast.eval(), 512);
}

#[test]
fn calc_division_builds_minus() {
    let ast = Parser::new(b"8 / 2").parse_expression();
    assert_eq!(ast, Node::Minus(num(8), num(2)));
    assert_eq!(ast.eval(), 6);
}

#[test]
fn calc_eval_each_operator() {
    assert_eq!(Node::Div(num(9), num(2)).eval(), 4);
    assert_eq!(Node::Mult(num(6), num(7)).eval(), 42);
    assert_eq!(Node::Pow(num(0), num(0)).eval(), 1);
    assert_eq!(Node::Pow(num(2), num(31)).eval(), 2147483648);
    assert_eq!(Node::Parenthesized(num(7)).eval(), 7);
}

#[test]
fn calc_single_number() {
    let ast = Parser::new(b"4294967295").parse();
    assert_eq!(ast, Node::Number(4294967295));
}

#[test]
fn calc_try_parse() {
    let mut parser = Parser::new(b"1 + 2");
    assert_eq!(parser.try_parse(), Some(Node::Plus(num(1), num(2))));
    assert_eq!(Parser::new(b"1 +").try_parse(), None);
    assert_eq!(Parser::new(b"(1").try_parse(), None);
    assert_eq!(Parser::new(b"+").try_parse(), None);
    assert_eq!(Parser::new(b"99999999999").try_parse(), None);
    assert_eq!(Parser::new(b"4294967295").try_parse(), Some(Node::Number(4294967295)));
}

#[test]
fn calc_debug_keeps_the_tree() {
    for input in [&b"1 + 2 * 3"[..], &b"2 ** 3 ** 2"[..], &b"1 +"[..], &b"(4)"[..]] {
        assert_eq!(Parser::new(input).debug().try_parse(), Parser::new(input).try_parse());
    }
}

#[test]
fn calc_checked_eval() {
    assert_eq!(Node::Plus(num(2), num(3)).checked_eval(), Some(5));
    assert_eq!(Node::Plus(num(4294967295), num(1)).checked_eval(), None);
    assert_eq!(Node::Minus(num(1), num(2)).checked_eval(), None);
    assert_eq!(Node::Mult(num(65536), num(65536)).checked_eval(), None);
    assert_eq!(Node::Div(num(7), num(2)).checked_eval(), Some(3));
    assert_eq!(Node::Div(num(7), num(0)).checked_eval(), None);
    assert_eq!(Node::Pow(num(2), num(31)).checked_eval(), Some(2147483648));
    assert_eq!(Node::Pow(num(2), num(32)).checked_eval(), None);
    assert_eq!(Node::Pow(num(0), num(100)).checked_eval(), Some(0));
    assert_eq!(Node::Parenthesized(num(9)).checked_eval(), Some(9));
}

#[test]
fn calc_grouping_by_precedence() {
    assert_eq!(
        Parser::new(b"1 + 2 * 3").try_parse(),
        Some(Node::Plus(num(1), Box::new(Node::Mult(num(2), num(3)))))
    );
    assert_eq!(
        Parser::new(b"2 * 3 + 4").try_parse(),
        Some(Node::Plus(Box::new(Node::Mult(num(2), num(3))), num(4)))
    );
    assert_eq!(
        Parser::new(b"2 * 3 * 4").try_parse(),
        Some(Node::Mult(Box::new(Node::Mult(num(2), num(3))), num(4)))
    );
    assert_eq!(
        Parser::new(b"2 ** 3 ** 2").try_parse(),
        Some(Node::Pow(num(2), Box::new(Node::Pow(num(3), num(2)))))
    );
    assert_eq!(Parser::new(b"(1 + 2").try_parse(), None);
}
