use language::parser::ast::Assignment;
use language::parser::ast::BinaryOperation;
use language::parser::ast::Body;
use language::parser::ast::Expression;
use language::parser::ast::Identifier;
use language::parser::ast::Literal;
use language::parser::ast::Statement;
use language::parser::ast::UnaryOperation;
use language::parser::ast::AST;
use language::parser::form::Form;
use language::parser::position::Position;
use language::parser::token::TokenType;

fn nowhere() -> Position {
    Position { start: 0, end: 0, line_number: 1, column_number: 0 }
}

fn number(value: i64) -> Expression {
    Expression::Literal(Literal { form: Form::Integer(value), position: nowhere() })
}

fn name(text: &str) -> Expression {
    Expression::Identifier(Identifier { name: String::from(text), position: nowhere() })
}

fn binary(left: Expression, operator: TokenType, right: Expression) -> Expression {
    Expression::BinaryOperation(BinaryOperation {
        loperand: Box::new(left),
        operator,
        roperand: Box::new(right),
    })
}

fn unary(operator: TokenType, operand: Expression) -> Expression {
    Expression::UnaryOperation(UnaryOperation { operator, operand: Box::new(operand) })
}

fn assign(target: &str, value: Expression) -> Statement {
    Statement::Assignment(Assignment {
        identifier: String::from(target),
        value: Box::new(value),
        position: nowhere(),
    })
}

#[test]
fn the_value_of_a_literal() {
    let literal = Literal { form: Form::Integer(45), position: nowhere() };
    assert_eq!(literal.value(), "45");
    assert_eq!(literal.to_string(), "45");
    let literal = Literal { form: Form::Integer(-3), position: nowhere() };
    assert_eq!(literal.value(), "-3");
    let literal = Literal { form: Form::Integer(0), position: nowhere() };
    assert_eq!(literal.value(), "0");
}

#[test]
fn a_literal_and_an_identifier_as_text() {
    assert_eq!(number(222).as_str(), "222");
    assert_eq!(name("a").as_str(), "a");
    assert_eq!(name("").as_str(), "");
}

#[test]
fn a_binary_operation_as_text() {
    assert_eq!(binary(number(1), TokenType::Plus, number(2)).as_str(), "(1 + 2)");
    assert_eq!(
        binary(name("a"), TokenType::BitwiseLshift, number(3)).as_str(),
        "(a << 3)"
    );
}

#[test]
fn a_unary_operation_as_text() {
    assert_eq!(unary(TokenType::Minus, number(5)).as_str(), "(- 5)");
    assert_eq!(unary(TokenType::BitwiseNot, name("x")).as_str(), "(~ x)");
}

#[test]
fn nested_operations_as_text() {
    let tree = binary(
        binary(number(45), TokenType::Plus, number(222)),
        TokenType::Minus,
        unary(TokenType::Minus, binary(name("a"), TokenType::Multiply, number(-2))),
    );
    assert_eq!(tree.as_str(), "((45 + 222) - (- (a * -2)))");
}

#[test]
fn an_assignment_as_text() {
    assert_eq!(
        assign("a", binary(number(1), TokenType::Plus, number(2))).as_str(),
        "Assignment[a, (1 + 2)]"
    );
}

#[test]
fn a_body_as_text() {
    let empty = Body { code: vec![] };
    assert_eq!(empty.to_string(), "()");
    assert_eq!(Statement::Body(empty).as_str(), "Body[()]");
    let body = Body {
        code: vec![
            AST::Statement(assign("a", number(1))),
            AST::Expression(binary(name("a"), TokenType::Plus, number(2))),
        ],
    };
    assert_eq!(body.to_string(), "(Assignment[a, 1](a + 2))");
    assert_eq!(Statement::Body(body).as_str(), "Body[(Assignment[a, 1](a + 2))]");
}

#[test]
fn a_body_inside_a_body() {
    let inner = Body { code: vec![AST::Expression(number(7))] };
    let outer = Body {
        code: vec![AST::Statement(Statement::Body(inner)), AST::Expression(name("b"))],
    };
    assert_eq!(outer.to_string(), "(Body[(7)]b)");
}

#[test]
fn a_tree_as_text() {
    assert_eq!(AST::Expression(number(9)).to_string(), "9");
    assert_eq!(AST::Statement(assign("x", name("y"))).to_string(), "Assignment[x, y]");
}
