use crate::parser::form::signed_to_string;
use crate::parser::form::Form;
use crate::parser::position::Position;
use crate::parser::token::TokenType;
use vstd::prelude::*;
use vstd::string::*;

verus! {

#[derive(Debug)]
pub enum Expression {
    Literal(Literal),
    BinaryOperation(BinaryOperation),
    UnaryOperation(UnaryOperation),
    Identifier(Identifier),
}

#[derive(Debug)]
pub struct Literal {
    pub form: Form,
    pub position: Position,
}

#[derive(Debug)]
pub struct BinaryOperation {
    pub loperand: Box<Expression>,
    pub operator: TokenType,
    pub roperand: Box<Expression>,
}

#[derive(Debug)]
pub struct UnaryOperation {
    pub operator: TokenType,
    pub operand: Box<Expression>,
}

#[derive(Debug)]
pub struct Identifier {
    pub name: String,
    pub position: Position,
}

#[derive(Debug)]
pub enum Statement {
    Assignment(Assignment),
    Body(Body),
}

#[derive(Debug)]
pub struct Assignment {
    pub identifier: String,
    pub value: Box<Expression>,
    pub position: Position,
}

#[derive(Debug)]
pub struct Body {
    pub code: Vec<AST>,
}

#[derive(Debug)]
pub enum AST {
    Statement(Statement),
    Expression(Expression),
}

impl Literal {
    /// The value as it is written.
    pub open spec fn text(self) -> Seq<char> {
        self.form.text()
    }

    pub fn value(&self) -> (text: String)
        ensures
            text@ == self.text(),
    {
        match self.form {
            Form::Integer(i) => signed_to_string(i),
        }
    }

    pub fn to_string(&self) -> (text: String)
        ensures
            text@ == self.text(),
    {
        self.value()
    }
}

impl Expression {
    /// The expression in prefix-free, fully bracketed form: a literal by
    /// its value, an identifier by its name, `(left operator right)` and
    /// `(operator operand)`.
    pub open spec fn text(self) -> Seq<char>
        decreases self,
    {
        match self {
            Expression::BinaryOperation(b) => "("@ + b.loperand.text() + " "@ + b.operator.name()
                + " "@ + b.roperand.text() + ")"@,
            Expression::UnaryOperation(u) => "("@ + u.operator.name() + " "@ + u.operand.text()
                + ")"@,
            Expression::Literal(l) => l.text(),
            Expression::Identifier(i) => i.name@,
        }
    }

    pub fn as_str(&self) -> (text: String)
        ensures
            text@ == self.text(),
        decreases self,
    {
        match self {
            Expression::BinaryOperation(b) => {
                let mut text = String::from_str("(");
                let left = b.loperand.as_str();
                text.append(left.as_str());
                text.append(" ");
                let operator = b.operator.to_string();
                text.append(operator.as_str());
                text.append(" ");
                let right = b.roperand.as_str();
                text.append(right.as_str());
                text.append(")");
                text
            },
            Expression::UnaryOperation(u) => {
                let mut text = String::from_str("(");
                let operator = u.operator.to_string();
                text.append(operator.as_str());
                text.append(" ");
                let operand = u.operand.as_str();
                text.append(operand.as_str());
                text.append(")");
                text
            },
            Expression::Literal(l) => l.to_string(),
            Expression::Identifier(i) => i.name.clone(),
        }
    }
}

/// The texts of `code` one behind the other.
pub open spec fn code_text(code: Seq<AST>) -> Seq<char>
    decreases code,
{
    if code.len() == 0 {
        Seq::empty()
    } else {
        code_text(code.drop_last()) + code.last().text()
    }
}

impl AST {
    /// The text of the statement or expression.
    pub open spec fn text(self) -> Seq<char>
        decreases self,
    {
        match self {
            AST::Expression(expression) => expression.text(),
            AST::Statement(statement) => statement.text(),
        }
    }

    pub fn to_string(&self) -> (text: String)
        ensures
            text@ == self.text(),
        decreases self,
    {
        match self {
            AST::Expression(expression) => expression.as_str(),
            AST::Statement(statement) => statement.as_str(),
        }
    }
}

impl Statement {
    /// `Assignment[name, value]` or `Body[body]`.
    pub open spec fn text(self) -> Seq<char>
        decreases self,
    {
        match self {
            Statement::Assignment(assignment) => "Assignment["@ + assignment.identifier@ + ", "@
                + assignment.value.text() + "]"@,
            Statement::Body(body) => "Body["@ + body.text() + "]"@,
        }
    }

    pub fn as_str(&self) -> (text: String)
        ensures
            text@ == self.text(),
        decreases self,
    {
        match self {
            Statement::Assignment(assignment) => {
                let mut text = String::from_str("Assignment[");
                text.append(assignment.identifier.as_str());
                text.append(", ");
                let value = assignment.value.as_str();
                text.append(value.as_str());
                text.append("]");
                text
            },
            Statement::Body(body) => {
                let mut text = String::from_str("Body[");
                let inner = body.to_string();
                text.append(inner.as_str());
                text.append("]");
                text
            },
        }
    }
}

impl Body {
    /// The texts of the body's parts, one behind the other, in brackets.
    pub open spec fn text(self) -> Seq<char>
        decreases self,
    {
        "("@ + code_text(self.code@) + ")"@
    }

    pub fn to_string(&self) -> (text: String)
        ensures
            text@ == self.text(),
        decreases self,
    {
        let mut text = String::from_str("(");
        let mut i: usize = 0;
        while i < self.code.len()
            invariant
                i <= self.code.len(),
                text@ == "("@ + code_text(self.code@.take(i as int)),
            decreases self.code.len() - i,
        {
            let part = self.code[i].to_string();
            assert(self.code@.take(i + 1).drop_last() =~= self.code@.take(i as int));
            text.append(part.as_str());
            i = i + 1;
        }
        assert(self.code@.take(i as int) =~= self.code@);
        text.append(")");
        text
    }
}

} // verus!
