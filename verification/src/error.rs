//! Errors of the tree-walking pipeline.
use vstd::prelude::*;

use crate::text::{decimal, hexadecimal, join, push_decimal, push_hexadecimal};

verus! {

/// What can go wrong between scanning a program and finishing its evaluation.
#[derive(Debug)]
pub enum LoxErr {
    /// A name was looked up and found nowhere.
    Undefined { message: String },
    /// An expression could not be evaluated.
    Eval { expr: String, message: String },
    /// A path that a correct program never takes.
    Internal { message: String },
    /// A static rule was broken.
    Resolve { message: String },
    /// The token stream does not follow the grammar.
    Parse { token: String, line: usize, column: usize },
    /// The source text does not lex.
    Scan { line: usize, col: usize, message: String },
}

/// A `LoxErr` with its texts as character sequences.
pub enum LoxErrView {
    Undefined { message: Seq<char> },
    Eval { expr: Seq<char>, message: Seq<char> },
    Internal { message: Seq<char> },
    Resolve { message: Seq<char> },
    Parse { token: Seq<char>, line: usize, column: usize },
    Scan { line: usize, col: usize, message: Seq<char> },
}

impl View for LoxErr {
    type V = LoxErrView;

    open spec fn view(&self) -> LoxErrView {
        match self {
            LoxErr::Undefined { message } => LoxErrView::Undefined { message: message@ },
            LoxErr::Eval { expr, message } => LoxErrView::Eval { expr: expr@, message: message@ },
            LoxErr::Internal { message } => LoxErrView::Internal { message: message@ },
            LoxErr::Resolve { message } => LoxErrView::Resolve { message: message@ },
            LoxErr::Parse { token, line, column } => LoxErrView::Parse {
                token: token@,
                line: *line,
                column: *column,
            },
            LoxErr::Scan { line, col, message } => LoxErrView::Scan {
                line: *line,
                col: *col,
                message: message@,
            },
        }
    }
}

impl LoxErr {
    /// An `Undefined` error whose message is `what` followed by `name`.
    pub fn undefined(what: &str, name: &str) -> (e: LoxErr)
        ensures
            e@ == (LoxErrView::Undefined { message: what@ + name@ }),
    {
        LoxErr::Undefined { message: join(what, name) }
    }

    /// An `Internal` error with the given message.
    pub fn internal(message: &str) -> (e: LoxErr)
        ensures
            e@ == (LoxErrView::Internal { message: message@ }),
    {
        LoxErr::Internal { message: message.to_owned() }
    }

    /// A `Resolve` error whose message is `what` followed by `name`.
    pub fn resolve(what: &str, name: &str) -> (e: LoxErr)
        ensures
            e@ == (LoxErrView::Resolve { message: what@ + name@ }),
    {
        LoxErr::Resolve { message: join(what, name) }
    }

    /// A `Resolve` error with the given message.
    pub fn broken(message: &str) -> (e: LoxErr)
        ensures
            e@ == (LoxErrView::Resolve { message: message@ }),
    {
        LoxErr::Resolve { message: message.to_owned() }
    }

    /// An `Eval` error about `expr`.
    pub fn eval(expr: &str, message: &str) -> (e: LoxErr)
        ensures
            e@ == (LoxErrView::Eval { expr: expr@, message: message@ }),
    {
        LoxErr::Eval { expr: expr.to_owned(), message: message.to_owned() }
    }
}

} // verus!

verus! {

/// What the scanner can reject.
#[derive(Debug)]
pub enum ScannerError {
    /// A character that starts no token.
    UnrecognizedInput(String),
    /// A string that is not closed on its line; the payload is the text from its opening quote.
    MalformedString(String),
    /// A number literal that has no value; the payload is its text.
    InvalidNumber(String),
    /// A block comment that is never closed.
    MalformedComment,
}

/// A [`ScannerError`] with its text as a character sequence.
pub enum ScannerErrorView {
    UnrecognizedInput(Seq<char>),
    MalformedString(Seq<char>),
    InvalidNumber(Seq<char>),
    MalformedComment,
}

impl View for ScannerError {
    type V = ScannerErrorView;

    open spec fn view(&self) -> ScannerErrorView {
        match self {
            ScannerError::UnrecognizedInput(s) => ScannerErrorView::UnrecognizedInput(s@),
            ScannerError::MalformedString(s) => ScannerErrorView::MalformedString(s@),
            ScannerError::InvalidNumber(s) => ScannerErrorView::InvalidNumber(s@),
            ScannerError::MalformedComment => ScannerErrorView::MalformedComment,
        }
    }
}

impl Default for ScannerError {
    fn default() -> (e: ScannerError)
        ensures
            e@ == ScannerErrorView::UnrecognizedInput("Unrecognized input"@),
    {
        ScannerError::UnrecognizedInput("Unrecognized input".to_owned())
    }
}

/// A token stream that the compiler cannot follow.
#[derive(Debug)]
pub enum SyntaxError {
    InvalidSyntax,
    /// Another token was expected; the payload says which.
    UnexpectedValue(String),
}

/// A [`SyntaxError`] with its text as a character sequence.
pub enum SyntaxErrorView {
    InvalidSyntax,
    UnexpectedValue(Seq<char>),
}

impl View for SyntaxError {
    type V = SyntaxErrorView;

    open spec fn view(&self) -> SyntaxErrorView {
        match self {
            SyntaxError::InvalidSyntax => SyntaxErrorView::InvalidSyntax,
            SyntaxError::UnexpectedValue(s) => SyntaxErrorView::UnexpectedValue(s@),
        }
    }
}

impl Default for SyntaxError {
    fn default() -> (e: SyntaxError)
        ensures
            e@ == SyntaxErrorView::InvalidSyntax,
    {
        SyntaxError::InvalidSyntax
    }
}

/// A bounded store is full.  The payload is the bound.
#[derive(Clone, Copy, Debug, PartialEq, Eq, Structural)]
pub enum OverflowError {
    /// The constant pool of a chunk is full.
    ExceedsConstSize(usize),
    /// An index does not fit the one byte that addresses the constant pool.
    IndexOverflow(usize),
    /// The operand stack is full.
    ExceedsStackSize(usize),
    /// The string pool is full.
    ExceedsPoolSize(usize),
}

/// A value is not of the type that an operation needs.  The payload names the type.
#[derive(Debug)]
pub enum ConversionError {
    ConversionError(String),
}

/// The operand stack was read while empty.
#[derive(Clone, Copy, Debug, PartialEq, Eq, Structural)]
pub enum InvalidAccessError {
    StackEmpty,
}

/// A path that a correct compiler and machine never take.
#[derive(Clone, Copy, Debug, PartialEq, Eq, Structural)]
pub enum InternalError {
    /// The byte is no opcode.
    UnknownOperation(u8),
    UnexpectedCodePath,
}

/// The compiler has no rule for a token.  The payload names the token kind.
#[derive(Debug)]
pub enum CompilerError {
    /// The token cannot start an expression.
    PrecedenceError(String),
    /// The token has no place in an expression at all.
    ParseLogicNotFound(String),
    /// The token is not the literal that was expected.
    UnimplementedType(String),
}

/// A [`CompilerError`] with its text as a character sequence.
pub enum CompilerErrorView {
    PrecedenceError(Seq<char>),
    ParseLogicNotFound(Seq<char>),
    UnimplementedType(Seq<char>),
}

impl View for CompilerError {
    type V = CompilerErrorView;

    open spec fn view(&self) -> CompilerErrorView {
        match self {
            CompilerError::PrecedenceError(s) => CompilerErrorView::PrecedenceError(s@),
            CompilerError::ParseLogicNotFound(s) => CompilerErrorView::ParseLogicNotFound(s@),
            CompilerError::UnimplementedType(s) => CompilerErrorView::UnimplementedType(s@),
        }
    }
}

/// Errors of the bytecode pipeline.
#[derive(Debug)]
pub enum LoxError {
    OverflowError(OverflowError),
    InternalError(InternalError),
    InvalidAccessError(InvalidAccessError),
    ConversionError(ConversionError),
    ScannerError(ScannerError),
    SyntaxError(SyntaxError),
    CompilerError(CompilerError),
}

/// A [`LoxError`] with its texts as character sequences.
pub enum LoxErrorView {
    OverflowError(OverflowError),
    InternalError(InternalError),
    InvalidAccessError(InvalidAccessError),
    /// The name of the type that the value was to have.
    ConversionError(Seq<char>),
    ScannerError(ScannerErrorView),
    SyntaxError(SyntaxErrorView),
    CompilerError(CompilerErrorView),
}

impl View for LoxError {
    type V = LoxErrorView;

    open spec fn view(&self) -> LoxErrorView {
        match self {
            LoxError::OverflowError(e) => LoxErrorView::OverflowError(*e),
            LoxError::InternalError(e) => LoxErrorView::InternalError(*e),
            LoxError::InvalidAccessError(e) => LoxErrorView::InvalidAccessError(*e),
            LoxError::ConversionError(ConversionError::ConversionError(s)) => {
                LoxErrorView::ConversionError(s@)
            },
            LoxError::ScannerError(e) => LoxErrorView::ScannerError(e@),
            LoxError::SyntaxError(e) => LoxErrorView::SyntaxError(e@),
            LoxError::CompilerError(e) => LoxErrorView::CompilerError(e@),
        }
    }
}

impl LoxError {
    /// The error of a value that is not of type `wanted`.
    pub fn conversion(wanted: &str) -> (e: LoxError)
        ensures
            e@ == LoxErrorView::ConversionError(wanted@),
    {
        LoxError::ConversionError(ConversionError::ConversionError(wanted.to_owned()))
    }

    /// The error of the operand stack read while empty.
    pub fn stack_empty() -> (e: LoxError)
        ensures
            e@ == LoxErrorView::InvalidAccessError(InvalidAccessError::StackEmpty),
    {
        LoxError::InvalidAccessError(InvalidAccessError::StackEmpty)
    }

    /// The error of a path that should not be taken.
    pub fn unexpected() -> (e: LoxError)
        ensures
            e@ == LoxErrorView::InternalError(InternalError::UnexpectedCodePath),
    {
        LoxError::InternalError(InternalError::UnexpectedCodePath)
    }
}


/// The kinds that errors are reported under.
#[derive(Clone, Copy, Debug, PartialEq, Eq, Structural)]
pub enum Category {
    /// The program is not well written.
    Syntax,
    /// The program failed while it ran.
    Runtime,
}

impl Category {
    /// The heading of the category.
    pub fn title(&self) -> (s: &'static str)
        ensures
            s@ == match self {
                Category::Syntax => "Syntax Error"@,
                Category::Runtime => "Runtime Error"@,
            },
    {
        match self {
            Category::Syntax => "Syntax Error",
            Category::Runtime => "Runtime Error",
        }
    }
}

/// What is said of a scanner error.
pub open spec fn scanner_message(e: ScannerErrorView) -> Seq<char> {
    match e {
        ScannerErrorView::UnrecognizedInput(s) => "Unrecognized input: "@ + s,
        ScannerErrorView::MalformedString(s) => "Malformed string: "@ + s,
        ScannerErrorView::InvalidNumber(s) => "Could not recognize "@ + s + " as a valid number"@,
        ScannerErrorView::MalformedComment => "Malformed comment"@,
    }
}

/// What is said of a syntax error.
pub open spec fn syntax_message(e: SyntaxErrorView) -> Seq<char> {
    match e {
        SyntaxErrorView::InvalidSyntax => "Invalid Syntax"@,
        SyntaxErrorView::UnexpectedValue(s) => s,
    }
}

/// What is said of an overflow.
pub open spec fn overflow_message(e: OverflowError) -> Seq<char> {
    match e {
        OverflowError::ExceedsConstSize(n) => "exceeded max amount of constants ("@ + decimal(
            n as nat,
        ) + ") in a scope"@,
        OverflowError::IndexOverflow(n) => "Index overflow exceeds ("@ + decimal(n as nat) + ")"@,
        OverflowError::ExceedsStackSize(n) => "exceeded max amount of values ("@ + decimal(
            n as nat,
        ) + ") on the stack"@,
        OverflowError::ExceedsPoolSize(n) => "exceeded max amount of strings ("@ + decimal(
            n as nat,
        ) + ")"@,
    }
}

/// What is said of an internal error.
pub open spec fn internal_message(e: InternalError) -> Seq<char> {
    match e {
        InternalError::UnknownOperation(op) => "unknown OP provided: (0x"@ + hexadecimal(
            op as nat,
        ) + ")"@,
        InternalError::UnexpectedCodePath => "Unexpected code path, programmer error"@,
    }
}

/// What is said of a compiler error.
pub open spec fn compiler_message(e: CompilerErrorView) -> Seq<char> {
    match e {
        CompilerErrorView::PrecedenceError(s) => "Expected a different precedence for "@ + s,
        CompilerErrorView::ParseLogicNotFound(s) => "Did not find parse logic for token: "@ + s,
        CompilerErrorView::UnimplementedType(s) => "Did not expect a token of type: "@ + s,
    }
}

/// What is said of an error of the bytecode pipeline: the kind of error, then the error.
pub open spec fn error_message(e: LoxErrorView) -> Seq<char> {
    match e {
        LoxErrorView::OverflowError(e) => "OverflowError: "@ + overflow_message(e),
        LoxErrorView::InternalError(e) => "InternalError: "@ + internal_message(e),
        LoxErrorView::InvalidAccessError(_) => "InvalidAccessError: "@
            + "Attempted to use an empty stack"@,
        LoxErrorView::ConversionError(s) => "ConversionError: "@ + ("Invalid conversion to: "@
            + s),
        LoxErrorView::ScannerError(e) => "ScannerError: "@ + scanner_message(e),
        LoxErrorView::SyntaxError(e) => "Syntax Error: "@ + syntax_message(e),
        LoxErrorView::CompilerError(e) => "Compiler Error: "@ + compiler_message(e),
    }
}

impl ScannerError {
    /// What is said of the error.
    pub fn message(&self) -> (s: String)
        ensures
            s@ == scanner_message(self@),
    {
        match self {
            ScannerError::UnrecognizedInput(t) => join("Unrecognized input: ", t.as_str()),
            ScannerError::MalformedString(t) => join("Malformed string: ", t.as_str()),
            ScannerError::InvalidNumber(t) => {
                let mut s = join("Could not recognize ", t.as_str());
                s.append(" as a valid number");
                s
            },
            ScannerError::MalformedComment => "Malformed comment".to_owned(),
        }
    }
}

impl SyntaxError {
    /// What is said of the error.
    pub fn message(&self) -> (s: String)
        ensures
            s@ == syntax_message(self@),
    {
        match self {
            SyntaxError::InvalidSyntax => "Invalid Syntax".to_owned(),
            SyntaxError::UnexpectedValue(t) => t.clone(),
        }
    }
}

impl OverflowError {
    /// What is said of the error.
    pub fn message(&self) -> (s: String)
        ensures
            s@ == overflow_message(*self),
    {
        match self {
            OverflowError::ExceedsConstSize(n) => {
                let mut s = "exceeded max amount of constants (".to_owned();
                push_decimal(&mut s, *n);
                s.append(") in a scope");
                s
            },
            OverflowError::IndexOverflow(n) => {
                let mut s = "Index overflow exceeds (".to_owned();
                push_decimal(&mut s, *n);
                s.append(")");
                s
            },
            OverflowError::ExceedsStackSize(n) => {
                let mut s = "exceeded max amount of values (".to_owned();
                push_decimal(&mut s, *n);
                s.append(") on the stack");
                s
            },
            OverflowError::ExceedsPoolSize(n) => {
                let mut s = "exceeded max amount of strings (".to_owned();
                push_decimal(&mut s, *n);
                s.append(")");
                s
            },
        }
    }
}

impl InternalError {
    /// What is said of the error.
    pub fn message(&self) -> (s: String)
        ensures
            s@ == internal_message(*self),
    {
        match self {
            InternalError::UnknownOperation(op) => {
                let mut s = "unknown OP provided: (0x".to_owned();
                push_hexadecimal(&mut s, *op as usize);
                s.append(")");
                s
            },
            InternalError::UnexpectedCodePath => "Unexpected code path, programmer error".to_owned(),
        }
    }
}

impl CompilerError {
    /// What is said of the error.
    pub fn message(&self) -> (s: String)
        ensures
            s@ == compiler_message(self@),
    {
        match self {
            CompilerError::PrecedenceError(t) => join(
                "Expected a different precedence for ",
                t.as_str(),
            ),
            CompilerError::ParseLogicNotFound(t) => join(
                "Did not find parse logic for token: ",
                t.as_str(),
            ),
            CompilerError::UnimplementedType(t) => join(
                "Did not expect a token of type: ",
                t.as_str(),
            ),
        }
    }
}

/// The category that an error of the bytecode pipeline is reported under:
/// what the scanner and the compiler reject is a syntax error.
pub open spec fn category_of(e: LoxErrorView) -> Category {
    match e {
        LoxErrorView::ScannerError(_) => Category::Syntax,
        LoxErrorView::SyntaxError(_) => Category::Syntax,
        LoxErrorView::CompilerError(_) => Category::Syntax,
        _ => Category::Runtime,
    }
}

impl LoxError {
    /// What is said of the error.
    pub fn message(&self) -> (s: String)
        ensures
            s@ == error_message(self@),
    {
        match self {
            LoxError::OverflowError(e) => join("OverflowError: ", e.message().as_str()),
            LoxError::InternalError(e) => join("InternalError: ", e.message().as_str()),
            LoxError::InvalidAccessError(_) => join(
                "InvalidAccessError: ",
                "Attempted to use an empty stack",
            ),
            LoxError::ConversionError(ConversionError::ConversionError(t)) => join(
                "ConversionError: ",
                join("Invalid conversion to: ", t.as_str()).as_str(),
            ),
            LoxError::ScannerError(e) => join("ScannerError: ", e.message().as_str()),
            LoxError::SyntaxError(e) => join("Syntax Error: ", e.message().as_str()),
            LoxError::CompilerError(e) => join("Compiler Error: ", e.message().as_str()),
        }
    }

    /// The category that the error is reported under.
    pub fn category(&self) -> (c: Category)
        ensures
            c == category_of(self@),
    {
        match self {
            LoxError::ScannerError(_) => Category::Syntax,
            LoxError::SyntaxError(_) => Category::Syntax,
            LoxError::CompilerError(_) => Category::Syntax,
            _ => Category::Runtime,
        }
    }
}

/// What is said of an error of the tree-walking pipeline.
pub open spec fn err_message(e: LoxErrView) -> Seq<char> {
    match e {
        LoxErrView::Parse { token, line, column } => "Parsing error for token: "@ + token
            + "\nat line: "@ + decimal(line as nat) + ", col: "@ + decimal(column as nat),
        LoxErrView::Eval { expr, message } => "Eval error: "@ + message
            + "\n for expression of type: "@ + expr,
        LoxErrView::Scan { line, col, message } => "Syntax error: "@ + message + "\nat line: "@
            + decimal(line as nat) + ", col: "@ + decimal(col as nat),
        LoxErrView::Internal { message } => "Internal program error: "@ + message,
        LoxErrView::Undefined { message } => "Undefined error: "@ + message,
        LoxErrView::Resolve { message } => "Variable resolving error: "@ + message,
    }
}

/// The category that an error of the tree-walking pipeline is reported
/// under: what the scanner, the parser and the resolver reject is a syntax error.
pub open spec fn err_category(e: LoxErrView) -> Category {
    match e {
        LoxErrView::Parse { .. } => Category::Syntax,
        LoxErrView::Scan { .. } => Category::Syntax,
        LoxErrView::Resolve { .. } => Category::Syntax,
        _ => Category::Runtime,
    }
}

impl LoxErr {
    /// The error of the scanner error `e` at line `line` and column `col`.
    pub fn scan(e: &ScannerError, line: usize, col: usize) -> (r: LoxErr)
        ensures
            r@ == (LoxErrView::Scan { line, col, message: scanner_message(e@) }),
    {
        LoxErr::Scan { line, col, message: e.message() }
    }

    /// What is said of the error.
    pub fn message(&self) -> (s: String)
        ensures
            s@ == err_message(self@),
    {
        match self {
            LoxErr::Parse { token, line, column } => {
                let mut s = join("Parsing error for token: ", token.as_str());
                s.append("\nat line: ");
                push_decimal(&mut s, *line);
                s.append(", col: ");
                push_decimal(&mut s, *column);
                s
            },
            LoxErr::Eval { expr, message } => {
                let mut s = join("Eval error: ", message.as_str());
                s.append("\n for expression of type: ");
                s.append(expr.as_str());
                s
            },
            LoxErr::Scan { line, col, message } => {
                let mut s = join("Syntax error: ", message.as_str());
                s.append("\nat line: ");
                push_decimal(&mut s, *line);
                s.append(", col: ");
                push_decimal(&mut s, *col);
                s
            },
            LoxErr::Internal { message } => join("Internal program error: ", message.as_str()),
            LoxErr::Undefined { message } => join("Undefined error: ", message.as_str()),
            LoxErr::Resolve { message } => join("Variable resolving error: ", message.as_str()),
        }
    }

    /// The category that the error is reported under.
    pub fn category(&self) -> (c: Category)
        ensures
            c == err_category(self@),
    {
        match self {
            LoxErr::Parse { .. } => Category::Syntax,
            LoxErr::Scan { .. } => Category::Syntax,
            LoxErr::Resolve { .. } => Category::Syntax,
            _ => Category::Runtime,
        }
    }
}

} // verus!
