use crate::parser::form::unsigned_to_string;
use crate::parser::form::decimal;
use crate::parser::position::Position;
use vstd::prelude::*;
use vstd::string::*;

verus! {

/// The kinds of token. Every token has exactly one.
#[derive(Debug, PartialEq, Eq, Structural, Copy, Clone)]
pub enum TokenType {
    // Values
    Integer,
    Float,
    String,
    True,
    False,
    // Identifier
    Identifier,
    // Assignment
    Assignment,
    // Arithmetic ops
    Plus,
    Minus,
    Multiply,
    Divide,
    Modulus,
    Exponent,
    // Bitwise ops
    BitwiseAnd,
    BitwiseOr,
    BitwiseNot,
    BitwiseXor,
    BitwiseLshift,
    BitwiseRshift,
    // Relational ops
    Equals,
    NotEquals,
    LessThan,
    LessEquals,
    GreaterThan,
    GreaterEquals,
    // Miscellaneous
    Hash,
    Eof,
}

impl TokenType {
    /// How a kind is shown: an operator by its symbol, any other kind by
    /// its name in lower case.
    pub open spec fn name(self) -> Seq<char> {
        match self {
            TokenType::Plus => "+"@,
            TokenType::Minus => "-"@,
            TokenType::Multiply => "*"@,
            TokenType::Divide => "/"@,
            TokenType::Modulus => "%"@,
            TokenType::Exponent => "^"@,
            TokenType::BitwiseAnd => "&"@,
            TokenType::BitwiseOr => "|"@,
            TokenType::BitwiseNot => "~"@,
            TokenType::BitwiseXor => "@"@,
            TokenType::BitwiseLshift => "<<"@,
            TokenType::BitwiseRshift => ">>"@,
            TokenType::Equals => "=="@,
            TokenType::NotEquals => "!="@,
            TokenType::LessThan => "<"@,
            TokenType::LessEquals => "<="@,
            TokenType::GreaterThan => ">"@,
            TokenType::GreaterEquals => ">="@,
            TokenType::Integer => "integer"@,
            TokenType::Float => "float"@,
            TokenType::String => "string"@,
            TokenType::True => "true"@,
            TokenType::False => "false"@,
            TokenType::Identifier => "identifier"@,
            TokenType::Assignment => "="@,
            TokenType::Hash => "#"@,
            TokenType::Eof => "eof"@,
        }
    }

    pub fn to_string(&self) -> (text: String)
        ensures
            text@ == self.name(),
    {
        let name = match self {
            TokenType::Plus => "+",
            TokenType::Minus => "-",
            TokenType::Multiply => "*",
            TokenType::Divide => "/",
            TokenType::Modulus => "%",
            TokenType::Exponent => "^",
            TokenType::BitwiseAnd => "&",
            TokenType::BitwiseOr => "|",
            TokenType::BitwiseNot => "~",
            TokenType::BitwiseXor => "@",
            TokenType::BitwiseLshift => "<<",
            TokenType::BitwiseRshift => ">>",
            TokenType::Equals => "==",
            TokenType::NotEquals => "!=",
            TokenType::LessThan => "<",
            TokenType::LessEquals => "<=",
            TokenType::GreaterThan => ">",
            TokenType::GreaterEquals => ">=",
            TokenType::Integer => "integer",
            TokenType::Float => "float",
            TokenType::String => "string",
            TokenType::True => "true",
            TokenType::False => "false",
            TokenType::Identifier => "identifier",
            TokenType::Assignment => "=",
            TokenType::Hash => "#",
            TokenType::Eof => "eof",
        };
        String::from_str(name)
    }
}

/// A lexeme with its kind and place. `content` is the lexeme as it stands
/// in the source; for a string literal it is what stands between the
/// quotes.
#[derive(PartialEq)]
pub struct Token {
    pub form: TokenType,
    pub position: Position,
    pub content: String,
}

/// A [`Token`] with its content as a character sequence.
pub struct TokenView {
    pub form: TokenType,
    pub position: Position,
    pub content: Seq<char>,
}

impl View for Token {
    type V = TokenView;

    open spec fn view(&self) -> TokenView {
        TokenView { form: self.form, position: self.position, content: self.content@ }
    }
}

impl DeepView for Token {
    type V = TokenView;

    open spec fn deep_view(&self) -> TokenView {
        self@
    }
}

impl TokenView {
    /// The text `(kind with value 'content' at line:column)`.
    pub open spec fn description(self) -> Seq<char> {
        "("@ + self.form.name() + " with value '"@ + self.content + "' at "@ + decimal(
            self.position.line_number as nat,
        ) + ":"@ + decimal(self.position.column_number as nat) + ")"@
    }
}

impl Token {
    /// The number of bytes of the content in UTF-8.
    pub fn len(&self) -> (n: usize)
        ensures
            n == vstd::utf8::encode_utf8(self@.content).len(),
    {
        self.content.as_str().as_bytes().len()
    }

    pub fn to_string(&self) -> (text: String)
        ensures
            text@ == self@.description(),
    {
        let mut text = String::from_str("(");
        let form = self.form.to_string();
        text.append(form.as_str());
        text.append(" with value '");
        text.append(self.content.as_str());
        text.append("' at ");
        let line = unsigned_to_string(self.position.line_number as u64);
        text.append(line.as_str());
        text.append(":");
        let column = unsigned_to_string(self.position.column_number as u64);
        text.append(column.as_str());
        text.append(")");
        text
    }
}

} // verus!
