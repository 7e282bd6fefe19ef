//! Tokens: what the scanner produces and both pipelines consume.
use vstd::prelude::*;

use crate::error::{LoxErr, LoxErrView};

verus! {

/// The kinds of token.
#[derive(Clone, Copy, Debug, PartialEq, Eq, Structural)]
pub enum TokenType {
    // one character
    LeftParen,
    RightParen,
    LeftBrace,
    RightBrace,
    Comma,
    Dot,
    Minus,
    Plus,
    SemiColon,
    Slash,
    Star,
    QuestionMark,
    Colon,
    // one or two characters
    Bang,
    BangEqual,
    Equal,
    EqualEqual,
    Greater,
    GreaterEqual,
    Less,
    LessEqual,
    // literals
    String,
    Number,
    Identifier,
    // keywords
    And,
    Class,
    Else,
    False,
    Fun,
    For,
    If,
    Nil,
    Or,
    Print,
    Return,
    Super,
    This,
    True,
    Var,
    While,
    Eof,
}

/// How a token kind is written in messages.
pub open spec fn token_text(t: TokenType) -> Seq<char> {
    match t {
        TokenType::LeftParen => "("@,
        TokenType::RightParen => ")"@,
        TokenType::LeftBrace => "{"@,
        TokenType::RightBrace => "}"@,
        TokenType::Comma => ","@,
        TokenType::Dot => "."@,
        TokenType::Minus => "-"@,
        TokenType::Plus => "+"@,
        TokenType::SemiColon => ";"@,
        TokenType::Slash => "/"@,
        TokenType::Star => "*"@,
        TokenType::QuestionMark => "?"@,
        TokenType::Colon => ":"@,
        TokenType::Bang => "!"@,
        TokenType::BangEqual => "!="@,
        TokenType::Equal => "="@,
        TokenType::EqualEqual => "=="@,
        TokenType::Greater => ">"@,
        TokenType::GreaterEqual => ">="@,
        TokenType::Less => "<"@,
        TokenType::LessEqual => "<="@,
        TokenType::String => "String"@,
        TokenType::Number => "Number"@,
        TokenType::Identifier => "Identifier"@,
        TokenType::And => "And"@,
        TokenType::Class => "Class"@,
        TokenType::Else => "Else"@,
        TokenType::False => "False"@,
        TokenType::Fun => "Fun"@,
        TokenType::For => "For"@,
        TokenType::If => "If"@,
        TokenType::Nil => "Nil"@,
        TokenType::Or => "Or"@,
        TokenType::Print => "Print"@,
        TokenType::Return => "Return"@,
        TokenType::Super => "Super"@,
        TokenType::This => "This"@,
        TokenType::True => "True"@,
        TokenType::Var => "Var"@,
        TokenType::While => "While"@,
        TokenType::Eof => "Eof"@,
    }
}

impl TokenType {
    /// The text by which messages name this kind.
    pub fn text(&self) -> (s: &'static str)
        ensures
            s@ == token_text(*self),
    {
        match self {
            TokenType::LeftParen => "(",
            TokenType::RightParen => ")",
            TokenType::LeftBrace => "{",
            TokenType::RightBrace => "}",
            TokenType::Comma => ",",
            TokenType::Dot => ".",
            TokenType::Minus => "-",
            TokenType::Plus => "+",
            TokenType::SemiColon => ";",
            TokenType::Slash => "/",
            TokenType::Star => "*",
            TokenType::QuestionMark => "?",
            TokenType::Colon => ":",
            TokenType::Bang => "!",
            TokenType::BangEqual => "!=",
            TokenType::Equal => "=",
            TokenType::EqualEqual => "==",
            TokenType::Greater => ">",
            TokenType::GreaterEqual => ">=",
            TokenType::Less => "<",
            TokenType::LessEqual => "<=",
            TokenType::String => "String",
            TokenType::Number => "Number",
            TokenType::Identifier => "Identifier",
            TokenType::And => "And",
            TokenType::Class => "Class",
            TokenType::Else => "Else",
            TokenType::False => "False",
            TokenType::Fun => "Fun",
            TokenType::For => "For",
            TokenType::If => "If",
            TokenType::Nil => "Nil",
            TokenType::Or => "Or",
            TokenType::Print => "Print",
            TokenType::Return => "Return",
            TokenType::Super => "Super",
            TokenType::This => "This",
            TokenType::True => "True",
            TokenType::Var => "Var",
            TokenType::While => "While",
            TokenType::Eof => "Eof",
        }
    }
}

/// A range of bytes of the source, `start` included and `end` excluded.
#[derive(Clone, Copy, Debug, PartialEq, Eq, Structural)]
pub struct Span {
    pub start: usize,
    pub end: usize,
}

/// The span used where no source position applies.
pub open spec fn no_span() -> Span {
    Span { start: 0, end: 0 }
}

impl Span {
    /// The span used where no source position applies.
    pub fn none() -> (s: Span)
        ensures
            s == no_span(),
    {
        Span { start: 0, end: 0 }
    }
}

/// The payload of a literal token.  A number is the bit pattern of its double.
#[derive(Debug)]
pub enum Literal {
    Boolean(bool),
    Number(u64),
    String(String),
    Nil,
}

/// A [`Literal`] with its text as a character sequence.
pub enum LiteralView {
    Boolean(bool),
    Number(u64),
    String(Seq<char>),
    Nil,
}

impl View for Literal {
    type V = LiteralView;

    open spec fn view(&self) -> LiteralView {
        match self {
            Literal::Boolean(b) => LiteralView::Boolean(*b),
            Literal::Number(n) => LiteralView::Number(*n),
            Literal::String(s) => LiteralView::String(s@),
            Literal::Nil => LiteralView::Nil,
        }
    }
}

impl Clone for Literal {
    fn clone(&self) -> (r: Literal)
        ensures
            r@ == self@,
    {
        match self {
            Literal::Boolean(b) => Literal::Boolean(*b),
            Literal::Number(n) => Literal::Number(*n),
            Literal::String(s) => Literal::String(s.clone()),
            Literal::Nil => Literal::Nil,
        }
    }
}

/// The view of an optional literal.
pub open spec fn literal_view(l: Option<Literal>) -> Option<LiteralView> {
    match l {
        Some(l) => Some(l@),
        None => None,
    }
}

/// One token with its place in the source.  `line` and `column` count from 1.
#[derive(Debug)]
pub struct Token {
    pub token_type: TokenType,
    pub line: usize,
    pub column: usize,
    pub literal: Option<Literal>,
    pub span: Span,
}

/// A [`Token`] as contracts see it.
pub struct TokenView {
    pub token_type: TokenType,
    pub line: usize,
    pub column: usize,
    pub literal: Option<LiteralView>,
    pub span: Span,
}

impl View for Token {
    type V = TokenView;

    open spec fn view(&self) -> TokenView {
        TokenView {
            token_type: self.token_type,
            line: self.line,
            column: self.column,
            literal: literal_view(self.literal),
            span: self.span,
        }
    }
}

impl Clone for Token {
    fn clone(&self) -> (r: Token)
        ensures
            r@ == self@,
    {
        Token {
            token_type: self.token_type,
            line: self.line,
            column: self.column,
            literal: match &self.literal {
                Some(l) => Some(l.clone()),
                None => None,
            },
            span: self.span,
        }
    }
}

/// What has a place in the source.
pub trait Spanned {
    /// The bytes of the source that this was read from.
    fn span(&self) -> Span;
}

impl Spanned for Token {
    fn span(&self) -> (s: Span)
        ensures
            s == self.span,
    {
        self.span
    }
}

/// The name that a token stands for, if it stands for one.
pub open spec fn identifier_of(t: TokenView) -> Option<Seq<char>> {
    if t.token_type == TokenType::This {
        Some("this"@)
    } else if t.token_type == TokenType::Super {
        Some("super"@)
    } else if t.token_type == TokenType::Identifier {
        match t.literal {
            Some(LiteralView::String(s)) => Some(s),
            _ => None,
        }
    } else {
        None
    }
}

impl Token {
    /// A token without a span.
    pub fn new(token_type: TokenType, literal: Option<Literal>, line: usize, column: usize) -> (t:
        Token)
        ensures
            t.token_type == token_type,
            t.literal == literal,
            t.line == line,
            t.column == column,
            t.span == no_span(),
    {
        Token { token_type, literal, line, column, span: Span::none() }
    }

    /// Whether the token is of kind `ensure`.
    pub fn ensure_type(&self, ensure: TokenType) -> (r: bool)
        ensures
            r == (self.token_type == ensure),
    {
        self.token_type == ensure
    }

    /// The same token, placed at `span`.
    pub fn with_span(self, span: Span) -> (t: Token)
        ensures
            t == (Token { span, ..self }),
    {
        Token { span, ..self }
    }

    /// The name that this token stands for: `this`, `super`, or an identifier's text.
    pub fn extract_identifier_str(&self) -> (r: Result<&str, LoxErr>)
        ensures
            match identifier_of(self@) {
                Some(name) => r is Ok && r->Ok_0@ == name,
                None => r is Err && r->Err_0@ == (LoxErrView::Internal {
                    message: "No string value defined for identifier token"@,
                }),
            },
    {
        if self.token_type == TokenType::This {
            return Ok("this");
        }
        if self.token_type == TokenType::Super {
            return Ok("super");
        }
        if self.token_type == TokenType::Identifier {
            match &self.literal {
                Some(Literal::String(s)) => {
                    return Ok(s.as_str());
                },
                _ => {},
            }
        }
        Err(LoxErr::internal("No string value defined for identifier token"))
    }
}

} // verus!
