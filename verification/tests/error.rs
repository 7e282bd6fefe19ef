use loxrs::error::{
    Category, CompilerError, ConversionError, InternalError, InvalidAccessError, LoxErr, LoxError,
    OverflowError, ScannerError, SyntaxError,
};

#[test]
fn messages_of_the_bytecode_errors() {
    assert_eq!(
        LoxError::OverflowError(OverflowError::ExceedsConstSize(256)).message(),
        "OverflowError: exceeded max amount of constants (256) in a scope"
    );
    assert_eq!(
        LoxError::OverflowError(OverflowError::IndexOverflow(7)).message(),
        "OverflowError: Index overflow exceeds (7)"
    );
    assert_eq!(
        LoxError::OverflowError(OverflowError::ExceedsStackSize(256)).message(),
        "OverflowError: exceeded max amount of values (256) on the stack"
    );
    assert_eq!(
        LoxError::OverflowError(OverflowError::ExceedsPoolSize(10)).message(),
        "OverflowError: exceeded max amount of strings (10)"
    );
    assert_eq!(
        LoxError::InternalError(InternalError::UnknownOperation(0xfe)).message(),
        "InternalError: unknown OP provided: (0xfe)"
    );
    assert_eq!(
        LoxError::InternalError(InternalError::UnknownOperation(9)).message(),
        "InternalError: unknown OP provided: (0x9)"
    );
    assert_eq!(
        LoxError::InternalError(InternalError::UnexpectedCodePath).message(),
        "InternalError: Unexpected code path, programmer error"
    );
    assert_eq!(
        LoxError::InvalidAccessError(InvalidAccessError::StackEmpty).message(),
        "InvalidAccessError: Attempted to use an empty stack"
    );
    assert_eq!(
        LoxError::ConversionError(ConversionError::ConversionError("number".to_owned())).message(),
        "ConversionError: Invalid conversion to: number"
    );
    assert_eq!(
        LoxError::ScannerError(ScannerError::UnrecognizedInput("Unrecognized input".to_owned()))
            .message(),
        "ScannerError: Unrecognized input: Unrecognized input"
    );
    assert_eq!(
        LoxError::ScannerError(ScannerError::MalformedString("\"a".to_owned())).message(),
        "ScannerError: Malformed string: \"a"
    );
    assert_eq!(
        LoxError::ScannerError(ScannerError::InvalidNumber("1e999".to_owned())).message(),
        "ScannerError: Could not recognize 1e999 as a valid number"
    );
    assert_eq!(
        LoxError::ScannerError(ScannerError::MalformedComment).message(),
        "ScannerError: Malformed comment"
    );
    assert_eq!(
        LoxError::SyntaxError(SyntaxError::InvalidSyntax).message(),
        "Syntax Error: Invalid Syntax"
    );
    assert_eq!(
        LoxError::SyntaxError(SyntaxError::UnexpectedValue("Expect ')'".to_owned())).message(),
        "Syntax Error: Expect ')'"
    );
    assert_eq!(
        LoxError::CompilerError(CompilerError::PrecedenceError("+".to_owned())).message(),
        "Compiler Error: Expected a different precedence for +"
    );
    assert_eq!(
        LoxError::CompilerError(CompilerError::ParseLogicNotFound(")".to_owned())).message(),
        "Compiler Error: Did not find parse logic for token: )"
    );
}

#[test]
fn messages_of_the_evaluator_errors() {
    assert_eq!(
        LoxErr::Parse { token: "var".to_owned(), line: 3, column: 14 }.message(),
        "Parsing error for token: var\nat line: 3, col: 14"
    );
    assert_eq!(
        LoxErr::Eval { expr: "binary".to_owned(), message: "division by zero".to_owned() }
            .message(),
        "Eval error: division by zero\n for expression of type: binary"
    );
    assert_eq!(
        LoxErr::Scan { line: 1, col: 2, message: "Malformed comment".to_owned() }.message(),
        "Syntax error: Malformed comment\nat line: 1, col: 2"
    );
    assert_eq!(
        LoxErr::Internal { message: "lost".to_owned() }.message(),
        "Internal program error: lost"
    );
    assert_eq!(
        LoxErr::Undefined { message: "a".to_owned() }.message(),
        "Undefined error: a"
    );
    assert_eq!(
        LoxErr::Resolve { message: "twice".to_owned() }.message(),
        "Variable resolving error: twice"
    );
}

#[test]
fn errors_are_grouped_in_two_categories() {
    assert_eq!(Category::Syntax.title(), "Syntax Error");
    assert_eq!(Category::Runtime.title(), "Runtime Error");
    assert_eq!(
        LoxError::ScannerError(ScannerError::MalformedComment).category(),
        Category::Syntax
    );
    assert_eq!(LoxError::SyntaxError(SyntaxError::InvalidSyntax).category(), Category::Syntax);
    assert_eq!(
        LoxError::CompilerError(CompilerError::PrecedenceError("+".to_owned())).category(),
        Category::Syntax
    );
    assert_eq!(
        LoxError::OverflowError(OverflowError::IndexOverflow(1)).category(),
        Category::Runtime
    );
    assert_eq!(
        LoxError::InternalError(InternalError::UnexpectedCodePath).category(),
        Category::Runtime
    );
    assert_eq!(
        LoxError::InvalidAccessError(InvalidAccessError::StackEmpty).category(),
        Category::Runtime
    );
    assert_eq!(
        LoxError::ConversionError(ConversionError::ConversionError("bool".to_owned())).category(),
        Category::Runtime
    );
    assert_eq!(
        LoxErr::Parse { token: "x".to_owned(), line: 1, column: 1 }.category(),
        Category::Syntax
    );
    assert_eq!(
        LoxErr::Scan { line: 1, col: 1, message: String::new() }.category(),
        Category::Syntax
    );
    assert_eq!(LoxErr::Resolve { message: String::new() }.category(), Category::Syntax);
    assert_eq!(LoxErr::Undefined { message: String::new() }.category(), Category::Runtime);
    assert_eq!(LoxErr::Internal { message: String::new() }.category(), Category::Runtime);
    assert_eq!(
        LoxErr::Eval { expr: String::new(), message: String::new() }.category(),
        Category::Runtime
    );
}
