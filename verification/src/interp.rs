//! The tree-walking evaluator, built as a machine that the host drives: it
//! runs until the program ends or fails, or until something is needed that
//! only the host can give: the result of rounding arithmetic, the text of a
//! number, the time, or a line of output.
pub mod call;
pub mod expr;
pub mod heap;
pub mod machine;
pub mod stmt;
pub mod value;
