//! The recursive-descent parser: tokens to a syntax tree.
//!
//! The functions whose names start with `p_` say what the parser does: each
//! takes the tokens and the state of a parse and gives the state that
//! follows, with the node that was built or the error.  The methods of
//! [`Parser`] compute exactly that.
//!
//! A parse error inside a statement is reported, the parser skips to the
//! next likely start of a statement, and the statement is left out.
use vstd::prelude::*;

use crate::ast::{
    lit_of, Ast, ExprAssign, ExprBinary, ExprCall, ExprFunction, ExprGet, ExprGrouping,
    ExprKind, ExprLogical, ExprSet, ExprSuper, ExprUnary, List, Lit, Node, Stmt, StmtBlock,
    StmtClass, StmtExpr, StmtFun, StmtIf, StmtPrint, StmtReturn, StmtVar, StmtWhile,
};
use crate::error::{LoxErr, LoxErrView};
use crate::text::join;
use crate::token::{Token, TokenType, TokenView};

verus! {

/// The most arguments of a call, and parameters of a function.
pub const MAX_ARGS_LEN: usize = 255;

/// The kind of the token at `pos`; `Eof` where there is none.
pub open spec fn kind_at(tokens: Seq<TokenView>, pos: int) -> TokenType {
    if 0 <= pos < tokens.len() {
        tokens[pos].token_type
    } else {
        TokenType::Eof
    }
}

/// The line of the token at `pos`; 0 where there is none.
pub open spec fn line_at(tokens: Seq<TokenView>, pos: int) -> usize {
    if 0 <= pos < tokens.len() {
        tokens[pos].line
    } else {
        0
    }
}

/// The column of the token at `pos`; 0 where there is none.
pub open spec fn column_at(tokens: Seq<TokenView>, pos: int) -> usize {
    if 0 <= pos < tokens.len() {
        tokens[pos].column
    } else {
        0
    }
}

/// Where a parse stands: the position in the tokens, the nodes and lists
/// built, and the errors reported.
pub struct ParseState {
    pub pos: int,
    pub nodes: Seq<Node>,
    pub extra: Seq<usize>,
    pub errors: Seq<LoxErrView>,
}

/// The state after a piece of parsing, and what the piece yielded.
pub struct Outcome<T> {
    pub st: ParseState,
    pub r: Result<T, LoxErrView>,
}

/// `value`, parsed, with the parser left in `st`.
pub open spec fn ok<T>(st: ParseState, value: T) -> Outcome<T> {
    Outcome { st, r: Ok(value) }
}

/// The error `e`, with the parser left in `st`.
pub open spec fn err<T>(st: ParseState, e: LoxErrView) -> Outcome<T> {
    Outcome { st, r: Err(e) }
}

/// `st` at position `pos`.
pub open spec fn at(st: ParseState, pos: int) -> ParseState {
    ParseState { pos, ..st }
}

/// `st`, but not before position `pos`.  Parsing never goes back, so this
/// changes no state that parsing from `pos` arrives at.
pub open spec fn fwd(st: ParseState, pos: int) -> ParseState {
    if st.pos >= pos {
        st
    } else {
        at(st, pos)
    }
}

/// How many tokens lie at or after `pos`.
pub open spec fn left(tokens: Seq<TokenView>, pos: int) -> int {
    if pos < tokens.len() {
        tokens.len() - pos
    } else {
        0
    }
}

/// Whether nothing but the end is left at `pos`.
pub open spec fn is_at_end(tokens: Seq<TokenView>, pos: int) -> bool {
    kind_at(tokens, pos) == TokenType::Eof
}

/// Whether the token at `pos` is of kind `t` and not the end.
pub open spec fn check(tokens: Seq<TokenView>, pos: int, t: TokenType) -> bool {
    !is_at_end(tokens, pos) && kind_at(tokens, pos) == t
}

/// The error `message` at the token at `pos`.
pub open spec fn parse_error(tokens: Seq<TokenView>, pos: int, message: Seq<char>) -> LoxErrView {
    LoxErrView::Parse {
        token: message,
        line: line_at(tokens, pos),
        column: column_at(tokens, pos),
    }
}

/// Steps over a token of kind `t`, or fails with `message`.  Yields the index of the token.
pub open spec fn p_consume(tokens: Seq<TokenView>, st: ParseState, t: TokenType, message: Seq<char>)
    -> Outcome<usize> {
    if check(tokens, st.pos, t) {
        ok(at(st, st.pos + 1), st.pos as usize)
    } else {
        err(st, parse_error(tokens, st.pos, message))
    }
}

/// `st` with one more node; yields its index.
pub open spec fn p_push(st: ParseState, node: Node) -> Outcome<usize> {
    ok(ParseState { nodes: st.nodes.push(node), ..st }, st.nodes.len() as usize)
}

/// `st` with one more expression; yields its index.
pub open spec fn p_expr(st: ParseState, kind: ExprKind) -> Outcome<usize> {
    p_push(st, Node::Expr(kind))
}

/// `st` with one more statement; yields its index.
pub open spec fn p_stmt_node(st: ParseState, stmt: Stmt) -> Outcome<usize> {
    p_push(st, Node::Stmt(stmt))
}

/// `st` with `items` added to the side table.
pub open spec fn with_list(st: ParseState, items: Seq<usize>) -> ParseState {
    ParseState { extra: st.extra + items, ..st }
}

/// The range that `items` take when added to the side table of `st`.
pub open spec fn list_of(st: ParseState, items: Seq<usize>) -> List {
    List { start: st.extra.len() as usize, len: items.len() as usize }
}

/// `st` with the error `e` reported.
pub open spec fn reported(st: ParseState, e: LoxErrView) -> ParseState {
    ParseState { errors: st.errors.push(e), ..st }
}

/// Whether a statement is likely to start with a token of kind `t`.
pub open spec fn starts_statement(t: TokenType) -> bool {
    t == TokenType::Class || t == TokenType::Fun || t == TokenType::Var || t == TokenType::For
        || t == TokenType::If || t == TokenType::While || t == TokenType::Print || t
        == TokenType::Return
}

/// The position that error recovery skips to from `pos`: after the next
/// `;`, or at the next token that starts a statement, or at the end.
pub open spec fn synchronized(tokens: Seq<TokenView>, pos: int) -> int
    decreases left(tokens, pos),
{
    if is_at_end(tokens, pos) {
        pos
    } else if kind_at(tokens, pos - 1) == TokenType::SemiColon {
        pos
    } else if starts_statement(kind_at(tokens, pos)) {
        pos
    } else {
        synchronized(tokens, pos + 1)
    }
}

/// Error recovery from `pos`: one token is skipped in any case.
pub open spec fn p_synchronize(tokens: Seq<TokenView>, pos: int) -> int {
    if is_at_end(tokens, pos) {
        pos
    } else {
        synchronized(tokens, pos + 1)
    }
}

/// The levels of binary operator, loosest first.
#[derive(Clone, Copy, Debug, PartialEq, Eq, Structural)]
pub enum Level {
    Or,
    And,
    Equality,
    Comparison,
    Term,
    Factor,
}

/// The level that binds more tightly than `level`; after `Factor` come the unary operators.
pub open spec fn tighter(level: Level) -> Option<Level> {
    match level {
        Level::Or => Some(Level::And),
        Level::And => Some(Level::Equality),
        Level::Equality => Some(Level::Comparison),
        Level::Comparison => Some(Level::Term),
        Level::Term => Some(Level::Factor),
        Level::Factor => None,
    }
}

/// Whether `t` is an operator of `level`.
pub open spec fn operator_of(level: Level, t: TokenType) -> bool {
    match level {
        Level::Or => t == TokenType::Or,
        Level::And => t == TokenType::And,
        Level::Equality => t == TokenType::BangEqual || t == TokenType::EqualEqual,
        Level::Comparison => t == TokenType::Greater || t == TokenType::GreaterEqual || t
            == TokenType::Less || t == TokenType::LessEqual,
        Level::Term => t == TokenType::Minus || t == TokenType::Plus,
        Level::Factor => t == TokenType::Slash || t == TokenType::Star,
    }
}

/// The node of `left operator right` at `level`.
pub open spec fn level_node(level: Level, left: usize, operator: usize, right: usize) -> ExprKind {
    match level {
        Level::Or | Level::And => ExprKind::Logical(ExprLogical { left, right, operator }),
        _ => ExprKind::Binary(ExprBinary { left, right, operator }),
    }
}

/// A measure that falls from each level to the next tighter one.
pub open spec fn rank(level: Level) -> int {
    match level {
        Level::Or => 44,
        Level::And => 40,
        Level::Equality => 36,
        Level::Comparison => 32,
        Level::Term => 28,
        Level::Factor => 24,
    }
}

/// `expression := assignment`
pub open spec fn p_expression(tokens: Seq<TokenView>, st: ParseState) -> Outcome<usize>
    decreases left(tokens, st.pos), 49int,
{
    p_assignment(tokens, st)
}

/// `assignment := ( call "." )? IDENT "=" assignment | logic_or`.  A target
/// that is neither a variable nor a property is reported, and the
/// assignment is dropped in favour of its left side.
pub open spec fn p_assignment(tokens: Seq<TokenView>, st: ParseState) -> Outcome<usize>
    decreases left(tokens, st.pos), 48int,
{
    let target = p_level(tokens, st, Level::Or);
    match target.r {
        Err(_) => target,
        Ok(expr) => {
            let st1 = fwd(target.st, st.pos);
            if check(tokens, st1.pos, TokenType::Equal) {
                let value = p_assignment(tokens, at(st1, st1.pos + 1));
                match value.r {
                    Err(_) => value,
                    Ok(val) => {
                        let st2 = fwd(value.st, st1.pos + 1);
                        match crate::ast::expr_at(st2.nodes, expr as int) {
                            Some(ExprKind::Var(name)) => p_expr(
                                st2,
                                ExprKind::Assign(ExprAssign { name, expression: val }),
                            ),
                            Some(ExprKind::Get(get)) => p_expr(
                                st2,
                                ExprKind::SetField(
                                    ExprSet { name: get.name, target: get.expr, value: val },
                                ),
                            ),
                            _ => ok(
                                reported(
                                    st2,
                                    parse_error(tokens, st1.pos, "Invalid assignment target"@),
                                ),
                                expr,
                            ),
                        }
                    },
                }
            } else {
                ok(st1, expr)
            }
        },
    }
}

/// One level of binary operators: `operand ( operator operand )*`, associating to the left.
pub open spec fn p_level(tokens: Seq<TokenView>, st: ParseState, level: Level) -> Outcome<usize>
    decreases left(tokens, st.pos), rank(level) + 2,
{
    let first = p_operand(tokens, st, level);
    match first.r {
        Err(_) => first,
        Ok(expr) => p_level_rest(tokens, fwd(first.st, st.pos), level, expr),
    }
}

/// An operand of `level`: an expression of the next tighter level.
pub open spec fn p_operand(tokens: Seq<TokenView>, st: ParseState, level: Level) -> Outcome<usize>
    decreases left(tokens, st.pos), rank(level),
{
    match tighter(level) {
        Some(next) => p_level(tokens, st, next),
        None => p_unary(tokens, st),
    }
}

/// The operators of `level` and their right operands, after the operand `expr`.
pub open spec fn p_level_rest(tokens: Seq<TokenView>, st: ParseState, level: Level, expr: usize)
    -> Outcome<usize>
    decreases left(tokens, st.pos), rank(level) + 1,
{
    if !is_at_end(tokens, st.pos) && operator_of(level, kind_at(tokens, st.pos)) {
        let right = p_operand(tokens, at(st, st.pos + 1), level);
        match right.r {
            Err(_) => right,
            Ok(r) => {
                let st2 = fwd(right.st, st.pos + 1);
                let node = p_expr(st2, level_node(level, expr, st.pos as usize, r));
                p_level_rest(tokens, node.st, level, node.r->Ok_0)
            },
        }
    } else {
        ok(st, expr)
    }
}

/// `unary := ( "!" | "-" ) unary | call`
pub open spec fn p_unary(tokens: Seq<TokenView>, st: ParseState) -> Outcome<usize>
    decreases left(tokens, st.pos), 20int,
{
    if check(tokens, st.pos, TokenType::Bang) || check(tokens, st.pos, TokenType::Minus) {
        let right = p_unary(tokens, at(st, st.pos + 1));
        match right.r {
            Err(_) => right,
            Ok(r) => p_expr(
                fwd(right.st, st.pos + 1),
                ExprKind::Unary(ExprUnary { right: r, operator: st.pos as usize }),
            ),
        }
    } else {
        p_call(tokens, st)
    }
}

/// `call := primary ( "(" args? ")" | "." IDENT )*`
pub open spec fn p_call(tokens: Seq<TokenView>, st: ParseState) -> Outcome<usize>
    decreases left(tokens, st.pos), 19int,
{
    let callee = p_primary(tokens, st);
    match callee.r {
        Err(_) => callee,
        Ok(expr) => p_call_rest(tokens, fwd(callee.st, st.pos), expr),
    }
}

/// The calls and property reads that follow the expression `expr`.
pub open spec fn p_call_rest(tokens: Seq<TokenView>, st: ParseState, expr: usize) -> Outcome<usize>
    decreases left(tokens, st.pos), 17int,
{
    if check(tokens, st.pos, TokenType::LeftParen) {
        let call = p_finish_call(tokens, at(st, st.pos + 1), expr);
        match call.r {
            Err(_) => call,
            Ok(e) => p_call_rest(tokens, fwd(call.st, st.pos + 1), e),
        }
    } else if check(tokens, st.pos, TokenType::Dot) {
        let name = p_consume(
            tokens,
            at(st, st.pos + 1),
            TokenType::Identifier,
            "expected identifier name after `.`."@,
        );
        match name.r {
            Err(_) => name,
            Ok(n) => {
                let node = p_expr(name.st, ExprKind::Get(ExprGet { name: n, expr }));
                p_call_rest(tokens, fwd(node.st, st.pos + 1), node.r->Ok_0)
            },
        }
    } else {
        ok(st, expr)
    }
}

/// The arguments of a call of `callee`, after its `(`, and the closing `)`.
pub open spec fn p_finish_call(tokens: Seq<TokenView>, st: ParseState, callee: usize) -> Outcome<
    usize,
>
    decreases left(tokens, st.pos), 51int,
{
    let args = if check(tokens, st.pos, TokenType::RightParen) {
        ok(st, Seq::<usize>::empty())
    } else {
        p_args(tokens, st, Seq::<usize>::empty())
    };
    match args.r {
        Err(e) => err(args.st, e),
        Ok(items) => {
            let st1 = fwd(args.st, st.pos);
            let paren = p_consume(
                tokens,
                st1,
                TokenType::RightParen,
                "Expected ) after args list"@,
            );
            match paren.r {
                Err(_) => paren,
                Ok(p) => p_expr(
                    with_list(paren.st, items),
                    ExprKind::Call(
                        ExprCall { callee, paren: p, args: list_of(paren.st, items) },
                    ),
                ),
            }
        },
    }
}

/// The arguments of a call from the next one on, `args` having been parsed.
pub open spec fn p_args(tokens: Seq<TokenView>, st: ParseState, args: Seq<usize>) -> Outcome<
    Seq<usize>,
>
    decreases left(tokens, st.pos), 50int,
{
    if args.len() >= MAX_ARGS_LEN {
        err(st, parse_error(tokens, st.pos, "No more than 255 args are allowed"@))
    } else {
        let arg = p_expression(tokens, st);
        match arg.r {
            Err(e) => err(arg.st, e),
            Ok(a) => {
                let st1 = fwd(arg.st, st.pos);
                if check(tokens, st1.pos, TokenType::Comma) {
                    p_args(tokens, at(st1, st1.pos + 1), args.push(a))
                } else {
                    ok(st1, args.push(a))
                }
            },
        }
    }
}

/// The parameters of a function from the next one on, `params` having been parsed.
pub open spec fn p_params(tokens: Seq<TokenView>, st: ParseState, params: Seq<usize>) -> Outcome<
    Seq<usize>,
>
    decreases left(tokens, st.pos),
{
    if params.len() >= MAX_ARGS_LEN {
        err(st, parse_error(tokens, st.pos, "No more than 255 params are allowed"@))
    } else {
        let name = p_consume(tokens, st, TokenType::Identifier, "expected parameter name"@);
        match name.r {
            Err(e) => err(name.st, e),
            Ok(n) => if check(tokens, name.st.pos, TokenType::Comma) {
                p_params(tokens, at(name.st, name.st.pos + 1), params.push(n))
            } else {
                ok(name.st, params.push(n))
            },
        }
    }
}

/// A parameter list after its `(`, up to and with the `)`, then the body in braces.
/// `paren` and `brace` are the messages for a missing `)` and `{`.
pub open spec fn p_function(tokens: Seq<TokenView>, st: ParseState, brace: Seq<char>) -> Outcome<
    ExprFunction,
>
    decreases left(tokens, st.pos), 71int,
{
    let params = if check(tokens, st.pos, TokenType::RightParen) {
        ok(st, Seq::<usize>::empty())
    } else {
        p_params(tokens, st, Seq::<usize>::empty())
    };
    match params.r {
        Err(e) => err(params.st, e),
        Ok(names) => {
            let st1 = fwd(params.st, st.pos);
            let paren = p_consume(
                tokens,
                st1,
                TokenType::RightParen,
                "Expected `)` after params list"@,
            );
            match paren.r {
                Err(e) => err(paren.st, e),
                Ok(_) => {
                    let open = p_consume(tokens, paren.st, TokenType::LeftBrace, brace);
                    match open.r {
                        Err(e) => err(open.st, e),
                        Ok(_) => {
                            let body = p_block(tokens, open.st);
                            match body.r {
                                Err(e) => err(body.st, e),
                                Ok(stmts) => {
                                    let st2 = fwd(body.st, st.pos);
                                    ok(
                                        with_list(st2, names),
                                        ExprFunction {
                                            params: list_of(st2, names),
                                            body: StmtBlock { stmts },
                                        },
                                    )
                                },
                            }
                        },
                    }
                },
            }
        },
    }
}

/// `primary`: a literal, `this`, a name, a parenthesized expression,
/// `super . IDENT`, or a function literal.
pub open spec fn p_primary(tokens: Seq<TokenView>, st: ParseState) -> Outcome<usize>
    decreases left(tokens, st.pos), 18int,
{
    let t = kind_at(tokens, st.pos);
    let token = st.pos as usize;
    let st1 = at(st, st.pos + 1);
    if is_at_end(tokens, st.pos) {
        err(st, parse_error(tokens, st.pos, "expected expression"@))
    } else if t == TokenType::False {
        p_expr(st1, ExprKind::Literal(Lit::Boolean(false)))
    } else if t == TokenType::True {
        p_expr(st1, ExprKind::Literal(Lit::Boolean(true)))
    } else if t == TokenType::Nil {
        p_expr(st1, ExprKind::Literal(Lit::Nil))
    } else if t == TokenType::This {
        p_expr(st1, ExprKind::This(token))
    } else if t == TokenType::String || t == TokenType::Number {
        p_expr(st1, ExprKind::Literal(lit_of(tokens, st.pos)))
    } else if t == TokenType::Identifier {
        p_expr(st1, ExprKind::Var(token))
    } else if t == TokenType::LeftParen {
        let inner = p_expression(tokens, st1);
        match inner.r {
            Err(_) => inner,
            Ok(expression) => {
                let close = p_consume(
                    tokens,
                    fwd(inner.st, st1.pos),
                    TokenType::RightParen,
                    "Expected ) after current token"@,
                );
                match close.r {
                    Err(_) => close,
                    Ok(_) => p_expr(close.st, ExprKind::Grouping(ExprGrouping { expression })),
                }
            },
        }
    } else if t == TokenType::Super {
        let dot = p_consume(tokens, st1, TokenType::Dot, "Expected `.` after `super`."@);
        match dot.r {
            Err(_) => dot,
            Ok(_) => {
                let method = p_consume(
                    tokens,
                    dot.st,
                    TokenType::Identifier,
                    "Expected superclass method name."@,
                );
                match method.r {
                    Err(_) => method,
                    Ok(m) => p_expr(
                        method.st,
                        ExprKind::Super(ExprSuper { keyword: token, method: m }),
                    ),
                }
            },
        }
    } else if t == TokenType::Fun {
        let open = p_consume(
            tokens,
            st1,
            TokenType::LeftParen,
            "Expected `(` after `fun` keyword."@,
        );
        match open.r {
            Err(_) => open,
            Ok(_) => {
                let def = p_function(tokens, open.st, "Expected `{` before func body"@);
                match def.r {
                    Err(e) => err(def.st, e),
                    Ok(f) => p_expr(def.st, ExprKind::Function(f)),
                }
            },
        }
    } else {
        err(st, parse_error(tokens, st.pos, "expected expression"@))
    }
}

/// The statements of a block after its `{`, and the closing `}`.  Yields the list of statements.
pub open spec fn p_block(tokens: Seq<TokenView>, st: ParseState) -> Outcome<List>
    decreases left(tokens, st.pos), 70int,
{
    let items = p_statements(tokens, st, Seq::<usize>::empty());
    let st1 = fwd(items.0, st.pos);
    let close = p_consume(tokens, st1, TokenType::RightBrace, "Expected `}` after block end."@);
    match close.r {
        Err(e) => err(close.st, e),
        Ok(_) => ok(with_list(close.st, items.1), list_of(close.st, items.1)),
    }
}

/// The statements up to the next `}` or the end, `stmts` having been parsed.
/// Statements that fail to parse are left out.
pub open spec fn p_statements(tokens: Seq<TokenView>, st: ParseState, stmts: Seq<usize>) -> (
    ParseState,
    Seq<usize>,
)
    decreases left(tokens, st.pos), 60int,
{
    if is_at_end(tokens, st.pos) || check(tokens, st.pos, TokenType::RightBrace) {
        (st, stmts)
    } else {
        let s = p_stmt(tokens, st);
        p_statements(
            tokens,
            fwd(s.0, st.pos + 1),
            match s.1 {
                Some(id) => stmts.push(id),
                None => stmts,
            },
        )
    }
}

/// One declaration or statement.  If it does not parse, the error is
/// reported, the parser synchronizes, and nothing is yielded.
pub open spec fn p_stmt(tokens: Seq<TokenView>, st: ParseState) -> (ParseState, Option<usize>)
    decreases left(tokens, st.pos), 56int,
{
    let parsed = p_declaration(tokens, st);
    match parsed.r {
        Ok(id) => (parsed.st, Some(id)),
        Err(e) => {
            let st1 = fwd(parsed.st, st.pos);
            (at(reported(st1, e), p_synchronize(tokens, st1.pos)), None)
        },
    }
}

/// A statement after the body `body` of a loop or branch failed to parse.
pub open spec fn p_declaration(tokens: Seq<TokenView>, st: ParseState) -> Outcome<usize>
    decreases left(tokens, st.pos), 55int,
{
    let t = kind_at(tokens, st.pos);
    let st1 = at(st, st.pos + 1);
    if is_at_end(tokens, st.pos) {
        p_expr_stmt(tokens, st)
    } else if t == TokenType::Class {
        p_class_stmt(tokens, st1)
    } else if t == TokenType::Fun && check(tokens, st.pos + 1, TokenType::Identifier) {
        p_fun_stmt(tokens, st1, "function"@)
    } else if t == TokenType::Var {
        p_var_stmt(tokens, st1)
    } else if t == TokenType::For {
        p_for_stmt(tokens, st1)
    } else if t == TokenType::If {
        p_if_stmt(tokens, st1)
    } else if t == TokenType::Print {
        p_print_stmt(tokens, st1)
    } else if t == TokenType::Return {
        p_return_stmt(tokens, st1)
    } else if t == TokenType::While {
        p_while_stmt(tokens, st1)
    } else if t == TokenType::LeftBrace {
        let block = p_block(tokens, st1);
        match block.r {
            Err(e) => err(block.st, e),
            Ok(stmts) => p_stmt_node(block.st, Stmt::Block(StmtBlock { stmts })),
        }
    } else {
        p_expr_stmt(tokens, st)
    }
}

/// `exprStmt := expression ";"`
pub open spec fn p_expr_stmt(tokens: Seq<TokenView>, st: ParseState) -> Outcome<usize>
    decreases left(tokens, st.pos), 52int,
{
    let expr = p_expression(tokens, st);
    match expr.r {
        Err(_) => expr,
        Ok(expr_id) => {
            let semi = p_consume(
                tokens,
                fwd(expr.st, st.pos),
                TokenType::SemiColon,
                "Expected `;` after expression."@,
            );
            match semi.r {
                Err(_) => semi,
                Ok(_) => p_stmt_node(semi.st, Stmt::Expr(StmtExpr { expr: expr_id })),
            }
        },
    }
}

/// `printStmt := "print" expression ";"`, after the keyword.
pub open spec fn p_print_stmt(tokens: Seq<TokenView>, st: ParseState) -> Outcome<usize>
    decreases left(tokens, st.pos), 52int,
{
    let expr = p_expression(tokens, st);
    match expr.r {
        Err(_) => expr,
        Ok(expr_id) => {
            let semi = p_consume(
                tokens,
                fwd(expr.st, st.pos),
                TokenType::SemiColon,
                "Expected `;` after value."@,
            );
            match semi.r {
                Err(_) => semi,
                Ok(_) => p_stmt_node(semi.st, Stmt::Print(StmtPrint { expr: expr_id })),
            }
        },
    }
}

/// `returnStmt := "return" expression? ";"`, after the keyword.  Without an
/// expression the value is a `nil` literal.
pub open spec fn p_return_stmt(tokens: Seq<TokenView>, st: ParseState) -> Outcome<usize>
    decreases left(tokens, st.pos), 52int,
{
    let val = if check(tokens, st.pos, TokenType::SemiColon) {
        p_expr(st, ExprKind::Literal(Lit::Nil))
    } else {
        p_expression(tokens, st)
    };
    match val.r {
        Err(_) => val,
        Ok(v) => {
            let semi = p_consume(
                tokens,
                fwd(val.st, st.pos),
                TokenType::SemiColon,
                "Expected `;` after return statement."@,
            );
            match semi.r {
                Err(_) => semi,
                Ok(_) => p_stmt_node(
                    semi.st,
                    Stmt::Return(StmtReturn { keyword: (st.pos - 1) as usize, val: v }),
                ),
            }
        },
    }
}

/// `varDecl := "var" IDENT ( "=" expression )? ";"`, after the keyword.
pub open spec fn p_var_stmt(tokens: Seq<TokenView>, st: ParseState) -> Outcome<usize>
    decreases left(tokens, st.pos), 52int,
{
    let name = p_consume(tokens, st, TokenType::Identifier, "expected variable name"@);
    match name.r {
        Err(_) => name,
        Ok(token) => {
            let init: Outcome<Option<usize>> = if check(tokens, name.st.pos, TokenType::Equal) {
                let value = p_expression(tokens, at(name.st, name.st.pos + 1));
                match value.r {
                    Err(e) => err(value.st, e),
                    Ok(v) => ok(fwd(value.st, name.st.pos + 1), Some(v)),
                }
            } else {
                ok(name.st, None)
            };
            match init.r {
                Err(e) => err(init.st, e),
                Ok(expr) => {
                    let semi = p_consume(
                        tokens,
                        init.st,
                        TokenType::SemiColon,
                        "Expected `;` after variable declaration."@,
                    );
                    match semi.r {
                        Err(_) => semi,
                        Ok(_) => p_stmt_node(semi.st, Stmt::Var(StmtVar { token, expr })),
                    }
                },
            }
        },
    }
}

/// The body of a loop or branch: one statement, or the error `message` if it does not parse.
pub open spec fn p_body(tokens: Seq<TokenView>, st: ParseState, message: Seq<char>) -> Outcome<
    usize,
>
    decreases left(tokens, st.pos), 57int,
{
    let body = p_stmt(tokens, st);
    let st1 = fwd(body.0, st.pos);
    match body.1 {
        Some(id) => ok(st1, id),
        None => err(st1, parse_error(tokens, st1.pos, message)),
    }
}

/// `whileStmt := "while" "(" expression ")" statement`, after the keyword.
pub open spec fn p_while_stmt(tokens: Seq<TokenView>, st: ParseState) -> Outcome<usize>
    decreases left(tokens, st.pos), 72int,
{
    let open = p_consume(
        tokens,
        st,
        TokenType::LeftParen,
        "Expected `(` after `while` keyword."@,
    );
    match open.r {
        Err(_) => open,
        Ok(_) => {
            let cond = p_expression(tokens, open.st);
            match cond.r {
                Err(_) => cond,
                Ok(expr) => {
                    let close = p_consume(
                        tokens,
                        fwd(cond.st, st.pos),
                        TokenType::RightParen,
                        "Expected `)` after `while` condition."@,
                    );
                    match close.r {
                        Err(_) => close,
                        Ok(_) => {
                            let body = p_body(
                                tokens,
                                close.st,
                                "Error in `while` statement body"@,
                            );
                            match body.r {
                                Err(_) => body,
                                Ok(stmt) => p_stmt_node(
                                    body.st,
                                    Stmt::While(StmtWhile { stmt, expr }),
                                ),
                            }
                        },
                    }
                },
            }
        },
    }
}

/// `ifStmt := "if" "(" expression ")" statement ( "else" statement )?`, after the keyword.
pub open spec fn p_if_stmt(tokens: Seq<TokenView>, st: ParseState) -> Outcome<usize>
    decreases left(tokens, st.pos), 72int,
{
    let open = p_consume(tokens, st, TokenType::LeftParen, "Expected `(` after `if` statement."@);
    match open.r {
        Err(_) => open,
        Ok(_) => {
            let cond = p_expression(tokens, open.st);
            match cond.r {
                Err(_) => cond,
                Ok(cond_id) => {
                    let close = p_consume(
                        tokens,
                        fwd(cond.st, st.pos),
                        TokenType::RightParen,
                        "Expected `)` after `if` condition."@,
                    );
                    match close.r {
                        Err(_) => close,
                        Ok(_) => {
                            let taken = p_body(
                                tokens,
                                close.st,
                                "Error in `if` statement clause"@,
                            );
                            match taken.r {
                                Err(_) => taken,
                                Ok(then_id) => p_else(
                                    tokens,
                                    fwd(taken.st, st.pos),
                                    cond_id,
                                    then_id,
                                ),
                            }
                        },
                    }
                },
            }
        },
    }
}

/// The optional `else` branch of an `if`, and the `If` node.
pub open spec fn p_else(tokens: Seq<TokenView>, st: ParseState, cond: usize, then_branch: usize)
    -> Outcome<usize>
    decreases left(tokens, st.pos), 71int,
{
    if check(tokens, st.pos, TokenType::Else) {
        let other = p_body(
            tokens,
            at(st, st.pos + 1),
            "Error in `if` statement `else` clause"@,
        );
        match other.r {
            Err(_) => other,
            Ok(id) => p_stmt_node(other.st, Stmt::If(StmtIf { cond, then_branch, else_stmt: Some(id) })),
        }
    } else {
        p_stmt_node(st, Stmt::If(StmtIf { cond, then_branch, else_stmt: None }))
    }
}

/// The initializer of a `for`: nothing but `;`, a variable declaration, or
/// an expression statement.
pub open spec fn p_for_init(tokens: Seq<TokenView>, st: ParseState) -> Outcome<Option<usize>>
    decreases left(tokens, st.pos), 53int,
{
    if check(tokens, st.pos, TokenType::SemiColon) {
        ok(at(st, st.pos + 1), None)
    } else {
        let init = if check(tokens, st.pos, TokenType::Var) {
            p_var_stmt(tokens, at(st, st.pos + 1))
        } else {
            p_expr_stmt(tokens, st)
        };
        match init.r {
            Err(e) => err(init.st, e),
            Ok(id) => ok(init.st, Some(id)),
        }
    }
}

/// An optional expression that ends before a token of kind `end`, and that token.
pub open spec fn p_for_clause(
    tokens: Seq<TokenView>,
    st: ParseState,
    end: TokenType,
    message: Seq<char>,
) -> Outcome<Option<usize>>
    decreases left(tokens, st.pos), 53int,
{
    let clause: Outcome<Option<usize>> = if check(tokens, st.pos, end) {
        ok(st, None)
    } else {
        let expr = p_expression(tokens, st);
        match expr.r {
            Err(e) => err(expr.st, e),
            Ok(id) => ok(fwd(expr.st, st.pos), Some(id)),
        }
    };
    match clause.r {
        Err(_) => clause,
        Ok(found) => {
            let close = p_consume(tokens, clause.st, end, message);
            match close.r {
                Err(e) => err(close.st, e),
                Ok(_) => ok(close.st, found),
            }
        },
    }
}

/// The statements that a `for` loop stands for:
/// `{ init; while (cond) { body; incr; } }`, without the blocks that a
/// missing `init` or `incr` makes unnecessary.  A missing `cond` is `false`.
pub open spec fn p_desugar(
    st: ParseState,
    init: Option<usize>,
    cond: Option<usize>,
    incr: Option<usize>,
    body: usize,
) -> Outcome<usize> {
    let stepped = match incr {
        Some(expr) => {
            let step = p_stmt_node(st, Stmt::Expr(StmtExpr { expr }));
            let items = seq![body, step.r->Ok_0];
            p_stmt_node(
                with_list(step.st, items),
                Stmt::Block(StmtBlock { stmts: list_of(step.st, items) }),
            )
        },
        None => ok(st, body),
    };
    let test = match cond {
        Some(expr) => ok(stepped.st, expr),
        None => p_expr(stepped.st, ExprKind::Literal(Lit::Boolean(false))),
    };
    let looped = p_stmt_node(
        test.st,
        Stmt::While(StmtWhile { stmt: stepped.r->Ok_0, expr: test.r->Ok_0 }),
    );
    match init {
        Some(first) => {
            let items = seq![first, looped.r->Ok_0];
            p_stmt_node(
                with_list(looped.st, items),
                Stmt::Block(StmtBlock { stmts: list_of(looped.st, items) }),
            )
        },
        None => looped,
    }
}

/// `forStmt := "for" "(" (varDecl|exprStmt|";") expression? ";" expression? ")" statement`,
/// after the keyword.
pub open spec fn p_for_stmt(tokens: Seq<TokenView>, st: ParseState) -> Outcome<usize>
    decreases left(tokens, st.pos), 72int,
{
    let open = p_consume(
        tokens,
        st,
        TokenType::LeftParen,
        "Expected `(` after `for` statement."@,
    );
    match open.r {
        Err(_) => open,
        Ok(_) => {
            let init = p_for_init(tokens, open.st);
            match init.r {
                Err(e) => err(init.st, e),
                Ok(first) => {
                    let cond = p_for_clause(
                        tokens,
                        fwd(init.st, st.pos),
                        TokenType::SemiColon,
                        "Expected `;` after `for` condition."@,
                    );
                    match cond.r {
                        Err(e) => err(cond.st, e),
                        Ok(test) => {
                            let incr = p_for_clause(
                                tokens,
                                fwd(cond.st, st.pos),
                                TokenType::RightParen,
                                "Expected `)` after `for` clause."@,
                            );
                            match incr.r {
                                Err(e) => err(incr.st, e),
                                Ok(step) => {
                                    let body = p_body(
                                        tokens,
                                        fwd(incr.st, st.pos),
                                        "Error in `for` statement clause"@,
                                    );
                                    match body.r {
                                        Err(_) => body,
                                        Ok(b) => p_desugar(body.st, first, test, step, b),
                                    }
                                },
                            }
                        },
                    }
                },
            }
        },
    }
}

/// `function := IDENT "(" params? ")" block`; `kind` is "function" or "method".
pub open spec fn p_fun_stmt(tokens: Seq<TokenView>, st: ParseState, kind: Seq<char>) -> Outcome<
    usize,
>
    decreases left(tokens, st.pos), 73int,
{
    let name = p_consume(tokens, st, TokenType::Identifier, "expected "@ + kind + " name"@);
    match name.r {
        Err(_) => name,
        Ok(n) => {
            let open = p_consume(
                tokens,
                name.st,
                TokenType::LeftParen,
                "expected `(` after `"@ + kind + "` identifier"@,
            );
            match open.r {
                Err(_) => open,
                Ok(_) => {
                    let def = p_function(
                        tokens,
                        open.st,
                        "Expected `{` before "@ + kind + " body"@,
                    );
                    match def.r {
                        Err(e) => err(def.st, e),
                        Ok(f) => p_stmt_node(def.st, Stmt::Fun(StmtFun { name: n, def: f })),
                    }
                },
            }
        },
    }
}

/// The methods of a class up to its `}`, `methods` having been parsed.
pub open spec fn p_methods(tokens: Seq<TokenView>, st: ParseState, methods: Seq<usize>) -> Outcome<
    Seq<usize>,
>
    decreases left(tokens, st.pos), 74int,
{
    if is_at_end(tokens, st.pos) || check(tokens, st.pos, TokenType::RightBrace) {
        ok(st, methods)
    } else {
        let method = p_fun_stmt(tokens, st, "method"@);
        let st1 = fwd(method.st, st.pos);
        match method.r {
            Err(_) => err(st1, parse_error(tokens, st1.pos, "Error in `class` statement body"@)),
            Ok(id) => p_methods(tokens, fwd(st1, st.pos + 1), methods.push(id)),
        }
    }
}

/// `classDecl := "class" IDENT ( "<" IDENT )? "{" function* "}"`, after the keyword.
pub open spec fn p_class_stmt(tokens: Seq<TokenView>, st: ParseState) -> Outcome<usize>
    decreases left(tokens, st.pos), 75int,
{
    let name = p_consume(
        tokens,
        st,
        TokenType::Identifier,
        "Expected `identifier` after `class` keyword."@,
    );
    match name.r {
        Err(_) => name,
        Ok(n) => {
            let parent: Outcome<Option<usize>> = if check(tokens, name.st.pos, TokenType::Less) {
                let over = p_consume(
                    tokens,
                    at(name.st, name.st.pos + 1),
                    TokenType::Identifier,
                    "Expected identifier after superclass `<` character."@,
                );
                match over.r {
                    Err(e) => err(over.st, e),
                    Ok(token) => {
                        let var = p_expr(over.st, ExprKind::Var(token));
                        ok(var.st, Some(var.r->Ok_0))
                    },
                }
            } else {
                ok(name.st, None)
            };
            match parent.r {
                Err(e) => err(parent.st, e),
                Ok(superclass) => {
                    let open = p_consume(
                        tokens,
                        parent.st,
                        TokenType::LeftBrace,
                        "Expected `{` before `class` body"@,
                    );
                    match open.r {
                        Err(_) => open,
                        Ok(_) => {
                            let methods = p_methods(tokens, open.st, Seq::<usize>::empty());
                            match methods.r {
                                Err(e) => err(methods.st, e),
                                Ok(items) => {
                                    let close = p_consume(
                                        tokens,
                                        fwd(methods.st, st.pos),
                                        TokenType::RightBrace,
                                        "Expected `}` after class body."@,
                                    );
                                    match close.r {
                                        Err(_) => close,
                                        Ok(_) => p_stmt_node(
                                            with_list(close.st, items),
                                            Stmt::Class(
                                                StmtClass {
                                                    name: n,
                                                    superclass,
                                                    methods: list_of(close.st, items),
                                                },
                                            ),
                                        ),
                                    }
                                },
                            }
                        },
                    }
                },
            }
        },
    }
}

/// `program := declaration* EOF`: the statements from `st.pos` to the end,
/// `stmts` having been parsed.
pub open spec fn p_program(tokens: Seq<TokenView>, st: ParseState, stmts: Seq<usize>) -> (
    ParseState,
    Seq<usize>,
)
    decreases left(tokens, st.pos), 60int,
{
    if is_at_end(tokens, st.pos) {
        (st, stmts)
    } else {
        let s = p_stmt(tokens, st);
        p_program(
            tokens,
            fwd(s.0, st.pos + 1),
            match s.1 {
                Some(id) => stmts.push(id),
                None => stmts,
            },
        )
    }
}


/// The views of a sequence of errors.
pub open spec fn err_views(errors: Seq<LoxErr>) -> Seq<LoxErrView> {
    Seq::new(errors.len(), |i: int| errors[i]@)
}

/// Whether the result `r`, with the parser left in state `st`, is the outcome `out`.
pub open spec fn yields<T>(r: Result<T, LoxErr>, st: ParseState, out: Outcome<T>) -> bool {
    st == out.st && match out.r {
        Ok(v) => r is Ok && r->Ok_0 == v,
        Err(e) => r is Err && r->Err_0@ == e,
    }
}

/// Error recovery never goes back.
pub proof fn lemma_synchronized(tokens: Seq<TokenView>, pos: int)
    ensures
        synchronized(tokens, pos) >= pos,
        p_synchronize(tokens, pos) >= pos,
        !is_at_end(tokens, pos) ==> p_synchronize(tokens, pos) > pos,
    decreases left(tokens, pos),
{
    if !is_at_end(tokens, pos) {
        lemma_synchronized(tokens, pos + 1);
    }
}

fn tighter_level(level: Level) -> (r: Option<Level>)
    ensures
        r == tighter(level),
{
    match level {
        Level::Or => Some(Level::And),
        Level::And => Some(Level::Equality),
        Level::Equality => Some(Level::Comparison),
        Level::Comparison => Some(Level::Term),
        Level::Term => Some(Level::Factor),
        Level::Factor => None,
    }
}

fn is_operator_of(level: Level, t: TokenType) -> (r: bool)
    ensures
        r == operator_of(level, t),
{
    match level {
        Level::Or => t == TokenType::Or,
        Level::And => t == TokenType::And,
        Level::Equality => t == TokenType::BangEqual || t == TokenType::EqualEqual,
        Level::Comparison => t == TokenType::Greater || t == TokenType::GreaterEqual || t
            == TokenType::Less || t == TokenType::LessEqual,
        Level::Term => t == TokenType::Minus || t == TokenType::Plus,
        Level::Factor => t == TokenType::Slash || t == TokenType::Star,
    }
}

fn node_of(level: Level, left: usize, operator: usize, right: usize) -> (r: ExprKind)
    ensures
        r == level_node(level, left, operator, right),
{
    match level {
        Level::Or | Level::And => ExprKind::Logical(ExprLogical { left, right, operator }),
        _ => ExprKind::Binary(ExprBinary { left, right, operator }),
    }
}

fn is_statement_start(t: TokenType) -> (r: bool)
    ensures
        r == starts_statement(t),
{
    t == TokenType::Class || t == TokenType::Fun || t == TokenType::Var || t == TokenType::For
        || t == TokenType::If || t == TokenType::While || t == TokenType::Print || t
        == TokenType::Return
}

/// A parse in progress.
pub struct Parser {
    ast: Ast,
    current: usize,
    errors: Vec<LoxErr>,
}

impl Parser {
    /// The tokens.
    pub closed spec fn tokens(&self) -> Seq<TokenView> {
        self.ast@.tokens
    }

    /// Where the parse stands.
    pub closed spec fn state(&self) -> ParseState {
        ParseState {
            pos: self.current as int,
            nodes: self.ast@.nodes,
            extra: self.ast@.extra,
            errors: err_views(self.errors@),
        }
    }

    /// How many tokens lie ahead.
    pub closed spec fn ahead(&self) -> int {
        left(self.ast@.tokens, self.current as int)
    }

    /// A parser at the first of `tokens`, with an empty tree.
    pub fn new(tokens: Vec<Token>) -> (p: Parser)
        ensures
            p.tokens() == crate::scanner::views(tokens@),
            p.state() == (ParseState {
                pos: 0,
                nodes: Seq::empty(),
                extra: Seq::empty(),
                errors: Seq::empty(),
            }),
    {
        let p = Parser { ast: Ast::new(tokens), current: 0, errors: Vec::new() };
        assert(p.state().errors =~= Seq::empty());
        p
    }

    /// A parser that adds to `ast`: `tokens` are appended to the tokens of
    /// the tree and the parse starts at the first of them.
    pub fn with_ast(ast: Ast, tokens: Vec<Token>) -> (p: Parser)
        ensures
            p.tokens() == ast@.tokens + crate::scanner::views(tokens@),
            p.state() == (ParseState {
                pos: ast@.tokens.len() as int,
                nodes: ast@.nodes,
                extra: ast@.extra,
                errors: Seq::empty(),
            }),
    {
        let mut ast = ast;
        let current = ast.tokens_len();
        ast.add_tokens(tokens);
        let p = Parser { ast, current, errors: Vec::new() };
        assert(p.state().errors =~= Seq::empty());
        p
    }

    /// The tree built so far.
    pub fn ast(&self) -> (ast: &Ast)
        ensures
            ast@.tokens == self.tokens(),
            ast@.nodes == self.state().nodes,
            ast@.extra == self.state().extra,
    {
        &self.ast
    }

    /// The tree.
    pub fn into_ast(self) -> (ast: Ast)
        ensures
            ast@.tokens == self.tokens(),
            ast@.nodes == self.state().nodes,
            ast@.extra == self.state().extra,
    {
        self.ast
    }

    fn peek_type(&self) -> (t: TokenType)
        ensures
            t == kind_at(self.tokens(), self.state().pos),
    {
        self.ast.token_type(self.current)
    }

    fn is_at_end(&self) -> (r: bool)
        ensures
            r == is_at_end(self.tokens(), self.state().pos),
            !r ==> self.state().pos < self.tokens().len() && self.state().pos + 1
                <= usize::MAX,
    {
        let _ = self.ast.tokens_len();
        self.peek_type() == TokenType::Eof
    }

    fn check(&self, t: TokenType) -> (r: bool)
        ensures
            r == check(self.tokens(), self.state().pos, t),
            r ==> self.state().pos < self.tokens().len() && self.state().pos + 1 <= usize::MAX,
    {
        !self.is_at_end() && self.peek_type() == t
    }

    /// Steps over the token at the position, which is not the end.
    fn advance(&mut self)
        requires
            !is_at_end(old(self).tokens(), old(self).state().pos),
        ensures
            final(self).tokens() == old(self).tokens(),
            final(self).state() == at(old(self).state(), old(self).state().pos + 1),
            final(self).ahead() < old(self).ahead(),
    {
        let _ = self.is_at_end();
        self.current = self.current + 1;
    }

    /// The error `message` at token `at`.
    fn error(&self, at: usize, message: &str) -> (e: LoxErr)
        ensures
            e@ == parse_error(self.tokens(), at as int, message@),
    {
        let (line, column) = match self.ast.token(at) {
            Some(t) => (t.line, t.column),
            None => (0, 0),
        };
        LoxErr::Parse { token: message.to_owned(), line, column }
    }

    /// The error `message` at the position.
    fn error_here(&self, message: &str) -> (e: LoxErr)
        ensures
            e@ == parse_error(self.tokens(), self.state().pos, message@),
    {
        self.error(self.current, message)
    }

    fn report(&mut self, e: LoxErr)
        ensures
            final(self).tokens() == old(self).tokens(),
            final(self).state() == reported(old(self).state(), e@),
    {
        self.errors.push(e);
        assert(err_views(self.errors@) =~= err_views(old(self).errors@).push(e@));
    }

    fn consume(&mut self, t: TokenType, message: &str) -> (r: Result<usize, LoxErr>)
        ensures
            final(self).tokens() == old(self).tokens(),
            yields(r, final(self).state(), p_consume(old(self).tokens(), old(self).state(), t, message@)),
            final(self).state().pos >= old(self).state().pos,
            r is Ok ==> final(self).ahead() < old(self).ahead(),
            final(self).ahead() <= old(self).ahead(),
    {
        if self.check(t) {
            let token = self.current;
            self.advance();
            Ok(token)
        } else {
            Err(self.error_here(message))
        }
    }

    fn expr(&mut self, kind: ExprKind) -> (id: usize)
        ensures
            final(self).tokens() == old(self).tokens(),
            yields(Ok::<usize, LoxErr>(id), final(self).state(), p_expr(old(self).state(), kind)),
            final(self).ahead() == old(self).ahead(),
    {
        self.ast.push_expr(kind)
    }

    fn stmt_node(&mut self, stmt: Stmt) -> (id: usize)
        ensures
            final(self).tokens() == old(self).tokens(),
            yields(Ok::<usize, LoxErr>(id), final(self).state(), p_stmt_node(old(self).state(), stmt)),
            final(self).ahead() == old(self).ahead(),
    {
        self.ast.push_stmt(stmt)
    }

    fn list(&mut self, items: &Vec<usize>) -> (list: List)
        ensures
            final(self).tokens() == old(self).tokens(),
            final(self).state() == with_list(old(self).state(), items@),
            list == list_of(old(self).state(), items@),
            final(self).ahead() == old(self).ahead(),
    {
        self.ast.push_list(items)
    }

    fn synchronize(&mut self)
        ensures
            final(self).tokens() == old(self).tokens(),
            final(self).state() == at(
                old(self).state(),
                p_synchronize(old(self).tokens(), old(self).state().pos),
            ),
            final(self).ahead() <= old(self).ahead(),
    {
        proof {
            lemma_synchronized(self.tokens(), self.state().pos);
        }
        if self.is_at_end() {
            return ;
        }
        self.advance();
        loop
            invariant
                self.tokens() == old(self).tokens(),
                self.state() == at(old(self).state(), self.state().pos),
                old(self).state().pos < self.state().pos,
                self.ahead() <= old(self).ahead(),
                synchronized(self.tokens(), self.state().pos) == p_synchronize(
                    old(self).tokens(),
                    old(self).state().pos,
                ),
            decreases self.ahead(),
        {
            if self.is_at_end() {
                return ;
            }
            if self.ast.token_type(self.current - 1) == TokenType::SemiColon {
                return ;
            }
            if is_statement_start(self.peek_type()) {
                return ;
            }
            self.advance();
        }
    }

    fn expression(&mut self) -> (r: Result<usize, LoxErr>)
        ensures
            final(self).tokens() == old(self).tokens(),
            yields(r, final(self).state(), p_expression(old(self).tokens(), old(self).state())),
            final(self).ahead() <= old(self).ahead(),
            final(self).state().pos >= old(self).state().pos,
            r is Ok ==> final(self).state().pos > old(self).state().pos,
        decreases old(self).ahead(), 49int,
    {
        self.assignment()
    }

    fn assignment(&mut self) -> (r: Result<usize, LoxErr>)
        ensures
            final(self).tokens() == old(self).tokens(),
            yields(r, final(self).state(), p_assignment(old(self).tokens(), old(self).state())),
            final(self).ahead() <= old(self).ahead(),
            final(self).state().pos >= old(self).state().pos,
            r is Ok ==> final(self).state().pos > old(self).state().pos,
        decreases old(self).ahead(), 48int,
    {
        let expr = match self.level(Level::Or) {
            Ok(e) => e,
            Err(e) => {
                return Err(e);
            },
        };
        if !self.check(TokenType::Equal) {
            return Ok(expr);
        }
        let equals = self.current;
        self.advance();
        let val = match self.assignment() {
            Ok(v) => v,
            Err(e) => {
                return Err(e);
            },
        };
        match self.ast.expr(expr) {
            Some(ExprKind::Var(name)) => Ok(
                self.expr(ExprKind::Assign(ExprAssign { name, expression: val })),
            ),
            Some(ExprKind::Get(get)) => Ok(
                self.expr(
                    ExprKind::SetField(ExprSet { name: get.name, target: get.expr, value: val }),
                ),
            ),
            _ => {
                let e = self.error(equals, "Invalid assignment target");
                self.report(e);
                Ok(expr)
            },
        }
    }

    fn level(&mut self, level: Level) -> (r: Result<usize, LoxErr>)
        ensures
            final(self).tokens() == old(self).tokens(),
            yields(r, final(self).state(), p_level(old(self).tokens(), old(self).state(), level)),
            final(self).ahead() <= old(self).ahead(),
            final(self).state().pos >= old(self).state().pos,
            r is Ok ==> final(self).state().pos > old(self).state().pos,
        decreases old(self).ahead(), rank(level) + 2,
    {
        let first = match self.operand(level) {
            Ok(e) => e,
            Err(e) => {
                return Err(e);
            },
        };
        self.level_rest(level, first)
    }

    fn operand(&mut self, level: Level) -> (r: Result<usize, LoxErr>)
        ensures
            final(self).tokens() == old(self).tokens(),
            yields(r, final(self).state(), p_operand(old(self).tokens(), old(self).state(), level)),
            final(self).ahead() <= old(self).ahead(),
            final(self).state().pos >= old(self).state().pos,
            r is Ok ==> final(self).state().pos > old(self).state().pos,
        decreases old(self).ahead(), rank(level),
    {
        match tighter_level(level) {
            Some(next) => self.level(next),
            None => self.unary(),
        }
    }

    fn level_rest(&mut self, level: Level, expr: usize) -> (r: Result<usize, LoxErr>)
        ensures
            final(self).tokens() == old(self).tokens(),
            yields(
                r,
                final(self).state(),
                p_level_rest(old(self).tokens(), old(self).state(), level, expr),
            ),
            final(self).ahead() <= old(self).ahead(),
            final(self).state().pos >= old(self).state().pos,
        decreases old(self).ahead(), rank(level) + 1,
    {
        if self.is_at_end() || !is_operator_of(level, self.peek_type()) {
            return Ok(expr);
        }
        let operator = self.current;
        self.advance();
        let right = match self.operand(level) {
            Ok(e) => e,
            Err(e) => {
                return Err(e);
            },
        };
        let node = self.expr(node_of(level, expr, operator, right));
        self.level_rest(level, node)
    }

    fn unary(&mut self) -> (r: Result<usize, LoxErr>)
        ensures
            final(self).tokens() == old(self).tokens(),
            yields(r, final(self).state(), p_unary(old(self).tokens(), old(self).state())),
            final(self).ahead() <= old(self).ahead(),
            final(self).state().pos >= old(self).state().pos,
            r is Ok ==> final(self).state().pos > old(self).state().pos,
        decreases old(self).ahead(), 20int,
    {
        if self.check(TokenType::Bang) || self.check(TokenType::Minus) {
            let operator = self.current;
            self.advance();
            match self.unary() {
                Ok(right) => Ok(self.expr(ExprKind::Unary(ExprUnary { right, operator }))),
                Err(e) => Err(e),
            }
        } else {
            self.call()
        }
    }

    fn call(&mut self) -> (r: Result<usize, LoxErr>)
        ensures
            final(self).tokens() == old(self).tokens(),
            yields(r, final(self).state(), p_call(old(self).tokens(), old(self).state())),
            final(self).ahead() <= old(self).ahead(),
            final(self).state().pos >= old(self).state().pos,
            r is Ok ==> final(self).state().pos > old(self).state().pos,
        decreases old(self).ahead(), 19int,
    {
        let expr = match self.primary() {
            Ok(e) => e,
            Err(e) => {
                return Err(e);
            },
        };
        self.call_rest(expr)
    }

    fn call_rest(&mut self, expr: usize) -> (r: Result<usize, LoxErr>)
        ensures
            final(self).tokens() == old(self).tokens(),
            yields(r, final(self).state(), p_call_rest(old(self).tokens(), old(self).state(), expr)),
            final(self).ahead() <= old(self).ahead(),
            final(self).state().pos >= old(self).state().pos,
        decreases old(self).ahead(), 17int,
    {
        if self.check(TokenType::LeftParen) {
            self.advance();
            match self.finish_call(expr) {
                Ok(e) => self.call_rest(e),
                Err(e) => Err(e),
            }
        } else if self.check(TokenType::Dot) {
            self.advance();
            match self.consume(TokenType::Identifier, "expected identifier name after `.`.") {
                Ok(name) => {
                    let node = self.expr(ExprKind::Get(ExprGet { name, expr }));
                    self.call_rest(node)
                },
                Err(e) => Err(e),
            }
        } else {
            Ok(expr)
        }
    }

    fn finish_call(&mut self, callee: usize) -> (r: Result<usize, LoxErr>)
        ensures
            final(self).tokens() == old(self).tokens(),
            yields(
                r,
                final(self).state(),
                p_finish_call(old(self).tokens(), old(self).state(), callee),
            ),
            final(self).ahead() <= old(self).ahead(),
            final(self).state().pos >= old(self).state().pos,
        decreases old(self).ahead(), 51int,
    {
        let mut args: Vec<usize> = Vec::new();
        if !self.check(TokenType::RightParen) {
            match self.args(args) {
                Ok(items) => {
                    args = items;
                },
                Err(e) => {
                    return Err(e);
                },
            }
        }
        let paren = match self.consume(TokenType::RightParen, "Expected ) after args list") {
            Ok(p) => p,
            Err(e) => {
                return Err(e);
            },
        };
        let list = self.list(&args);
        Ok(self.expr(ExprKind::Call(ExprCall { callee, paren, args: list })))
    }

    fn args(&mut self, args: Vec<usize>) -> (r: Result<Vec<usize>, LoxErr>)
        ensures
            final(self).tokens() == old(self).tokens(),
            final(self).state() == p_args(old(self).tokens(), old(self).state(), args@).st,
            match p_args(old(self).tokens(), old(self).state(), args@).r {
                Ok(items) => r is Ok && r->Ok_0@ == items,
                Err(e) => r is Err && r->Err_0@ == e,
            },
            final(self).ahead() <= old(self).ahead(),
            final(self).state().pos >= old(self).state().pos,
        decreases old(self).ahead(), 50int,
    {
        let mut args = args;
        if args.len() >= MAX_ARGS_LEN {
            return Err(self.error_here("No more than 255 args are allowed"));
        }
        match self.expression() {
            Ok(arg) => {
                args.push(arg);
            },
            Err(e) => {
                return Err(e);
            },
        }
        if self.check(TokenType::Comma) {
            self.advance();
            self.args(args)
        } else {
            Ok(args)
        }
    }

    fn params(&mut self, params: Vec<usize>) -> (r: Result<Vec<usize>, LoxErr>)
        ensures
            final(self).tokens() == old(self).tokens(),
            final(self).state() == p_params(old(self).tokens(), old(self).state(), params@).st,
            match p_params(old(self).tokens(), old(self).state(), params@).r {
                Ok(items) => r is Ok && r->Ok_0@ == items,
                Err(e) => r is Err && r->Err_0@ == e,
            },
            final(self).ahead() <= old(self).ahead(),
            final(self).state().pos >= old(self).state().pos,
        decreases old(self).ahead(),
    {
        let mut params = params;
        if params.len() >= MAX_ARGS_LEN {
            return Err(self.error_here("No more than 255 params are allowed"));
        }
        match self.consume(TokenType::Identifier, "expected parameter name") {
            Ok(name) => {
                params.push(name);
            },
            Err(e) => {
                return Err(e);
            },
        }
        if self.check(TokenType::Comma) {
            self.advance();
            self.params(params)
        } else {
            Ok(params)
        }
    }

    /// The parameters and body of a function, after the `(`.
    fn function(&mut self, brace: &str) -> (r: Result<ExprFunction, LoxErr>)
        ensures
            final(self).tokens() == old(self).tokens(),
            yields(
                r,
                final(self).state(),
                p_function(old(self).tokens(), old(self).state(), brace@),
            ),
            final(self).ahead() <= old(self).ahead(),
            final(self).state().pos >= old(self).state().pos,
            r is Ok ==> final(self).state().pos > old(self).state().pos,
        decreases old(self).ahead(), 71int,
    {
        let mut params: Vec<usize> = Vec::new();
        if !self.check(TokenType::RightParen) {
            match self.params(params) {
                Ok(items) => {
                    params = items;
                },
                Err(e) => {
                    return Err(e);
                },
            }
        }
        match self.consume(TokenType::RightParen, "Expected `)` after params list") {
            Ok(_) => {},
            Err(e) => {
                return Err(e);
            },
        }
        match self.consume(TokenType::LeftBrace, brace) {
            Ok(_) => {},
            Err(e) => {
                return Err(e);
            },
        }
        let stmts = match self.block_stmt() {
            Ok(stmts) => stmts,
            Err(e) => {
                return Err(e);
            },
        };
        let list = self.list(&params);
        Ok(ExprFunction { params: list, body: StmtBlock { stmts } })
    }

    /// A function literal, after the keyword `fun`.
    fn func(&mut self) -> (r: Result<usize, LoxErr>)
        ensures
            final(self).tokens() == old(self).tokens(),
            final(self).ahead() <= old(self).ahead(),
            final(self).state().pos >= old(self).state().pos,
            final(self).state() == p_func(old(self).tokens(), old(self).state()).st,
            yields(r, final(self).state(), p_func(old(self).tokens(), old(self).state())),
        decreases old(self).ahead(), 72int,
    {
        match self.consume(TokenType::LeftParen, "Expected `(` after `fun` keyword.") {
            Ok(_) => {},
            Err(e) => {
                return Err(e);
            },
        }
        match self.function("Expected `{` before func body") {
            Ok(f) => Ok(self.expr(ExprKind::Function(f))),
            Err(e) => Err(e),
        }
    }

    fn primary(&mut self) -> (r: Result<usize, LoxErr>)
        ensures
            final(self).tokens() == old(self).tokens(),
            yields(r, final(self).state(), p_primary(old(self).tokens(), old(self).state())),
            final(self).ahead() <= old(self).ahead(),
            final(self).state().pos >= old(self).state().pos,
            r is Ok ==> final(self).state().pos > old(self).state().pos,
        decreases old(self).ahead(), 18int,
    {
        if self.is_at_end() {
            return Err(self.error_here("expected expression"));
        }
        let t = self.peek_type();
        let token = self.current;
        match t {
            TokenType::False => {
                self.advance();
                Ok(self.expr(ExprKind::Literal(Lit::Boolean(false))))
            },
            TokenType::True => {
                self.advance();
                Ok(self.expr(ExprKind::Literal(Lit::Boolean(true))))
            },
            TokenType::Nil => {
                self.advance();
                Ok(self.expr(ExprKind::Literal(Lit::Nil)))
            },
            TokenType::This => {
                self.advance();
                Ok(self.expr(ExprKind::This(token)))
            },
            TokenType::String | TokenType::Number => {
                let lit = self.ast.lit(token);
                self.advance();
                Ok(self.expr(ExprKind::Literal(lit)))
            },
            TokenType::Identifier => {
                self.advance();
                Ok(self.expr(ExprKind::Var(token)))
            },
            TokenType::LeftParen => {
                self.advance();
                let expression = match self.expression() {
                    Ok(e) => e,
                    Err(e) => {
                        return Err(e);
                    },
                };
                match self.consume(TokenType::RightParen, "Expected ) after current token") {
                    Ok(_) => Ok(self.expr(ExprKind::Grouping(ExprGrouping { expression }))),
                    Err(e) => Err(e),
                }
            },
            TokenType::Super => {
                self.advance();
                match self.consume(TokenType::Dot, "Expected `.` after `super`.") {
                    Ok(_) => {},
                    Err(e) => {
                        return Err(e);
                    },
                }
                match self.consume(TokenType::Identifier, "Expected superclass method name.") {
                    Ok(method) => Ok(
                        self.expr(ExprKind::Super(ExprSuper { keyword: token, method })),
                    ),
                    Err(e) => Err(e),
                }
            },
            TokenType::Fun => {
                self.advance();
                self.func()
            },
            _ => Err(self.error_here("expected expression")),
        }
    }

    /// The statements of a block, after its `{`, and the `}`.
    fn block_stmt(&mut self) -> (r: Result<List, LoxErr>)
        ensures
            final(self).tokens() == old(self).tokens(),
            yields(r, final(self).state(), p_block(old(self).tokens(), old(self).state())),
            final(self).ahead() <= old(self).ahead(),
            final(self).state().pos >= old(self).state().pos,
            r is Ok ==> final(self).state().pos > old(self).state().pos,
        decreases old(self).ahead(), 70int,
    {
        let stmts = self.statements(Vec::new());
        match self.consume(TokenType::RightBrace, "Expected `}` after block end.") {
            Ok(_) => Ok(self.list(&stmts)),
            Err(e) => Err(e),
        }
    }

    fn statements(&mut self, stmts: Vec<usize>) -> (r: Vec<usize>)
        ensures
            final(self).tokens() == old(self).tokens(),
            final(self).state() == p_statements(old(self).tokens(), old(self).state(), stmts@).0,
            r@ == p_statements(old(self).tokens(), old(self).state(), stmts@).1,
            final(self).ahead() <= old(self).ahead(),
            final(self).state().pos >= old(self).state().pos,
        decreases old(self).ahead(), 60int,
    {
        let mut stmts = stmts;
        if self.is_at_end() || self.check(TokenType::RightBrace) {
            return stmts;
        }
        match self.stmt() {
            Some(id) => {
                stmts.push(id);
            },
            None => {},
        }
        self.statements(stmts)
    }

    /// One declaration or statement; `None`, with the error reported, if it does not parse.
    fn stmt(&mut self) -> (r: Option<usize>)
        ensures
            final(self).tokens() == old(self).tokens(),
            final(self).state() == p_stmt(old(self).tokens(), old(self).state()).0,
            r == p_stmt(old(self).tokens(), old(self).state()).1,
            final(self).ahead() <= old(self).ahead(),
            final(self).state().pos >= old(self).state().pos,
            !is_at_end(old(self).tokens(), old(self).state().pos) ==> final(self).ahead() < old(self).ahead() && final(self).state().pos > old(self).state().pos,
        decreases old(self).ahead(), 56int,
    {
        match self.declaration() {
            Ok(id) => Some(id),
            Err(e) => {
                proof {
                    lemma_synchronized(self.tokens(), self.state().pos);
                }
                self.report(e);
                self.synchronize();
                None
            },
        }
    }

    fn declaration(&mut self) -> (r: Result<usize, LoxErr>)
        ensures
            final(self).tokens() == old(self).tokens(),
            yields(r, final(self).state(), p_declaration(old(self).tokens(), old(self).state())),
            final(self).ahead() <= old(self).ahead(),
            final(self).state().pos >= old(self).state().pos,
            r is Ok ==> final(self).state().pos > old(self).state().pos,
        decreases old(self).ahead(), 55int,
    {
        if self.is_at_end() {
            return self.expr_stmt();
        }
        let t = self.peek_type();
        match t {
            TokenType::Class => {
                self.advance();
                self.class_stmt()
            },
            TokenType::Var => {
                self.advance();
                self.var_stmt()
            },
            TokenType::For => {
                self.advance();
                self.for_stmt()
            },
            TokenType::If => {
                self.advance();
                self.if_stmt()
            },
            TokenType::Print => {
                self.advance();
                self.print_stmt()
            },
            TokenType::Return => {
                self.advance();
                self.return_stmt()
            },
            TokenType::While => {
                self.advance();
                self.while_stmt()
            },
            TokenType::LeftBrace => {
                self.advance();
                match self.block_stmt() {
                    Ok(stmts) => Ok(self.stmt_node(Stmt::Block(StmtBlock { stmts }))),
                    Err(e) => Err(e),
                }
            },
            TokenType::Fun => {
                let named = self.ast.token_type(self.current + 1) == TokenType::Identifier;
                if named {
                    self.advance();
                    self.fun_stmt("function")
                } else {
                    self.expr_stmt()
                }
            },
            _ => self.expr_stmt(),
        }
    }

    fn expr_stmt(&mut self) -> (r: Result<usize, LoxErr>)
        ensures
            final(self).tokens() == old(self).tokens(),
            yields(r, final(self).state(), p_expr_stmt(old(self).tokens(), old(self).state())),
            final(self).ahead() <= old(self).ahead(),
            final(self).state().pos >= old(self).state().pos,
            r is Ok ==> final(self).state().pos > old(self).state().pos,
        decreases old(self).ahead(), 52int,
    {
        let expr = match self.expression() {
            Ok(e) => e,
            Err(e) => {
                return Err(e);
            },
        };
        match self.consume(TokenType::SemiColon, "Expected `;` after expression.") {
            Ok(_) => Ok(self.stmt_node(Stmt::Expr(StmtExpr { expr }))),
            Err(e) => Err(e),
        }
    }

    fn print_stmt(&mut self) -> (r: Result<usize, LoxErr>)
        ensures
            final(self).tokens() == old(self).tokens(),
            yields(r, final(self).state(), p_print_stmt(old(self).tokens(), old(self).state())),
            final(self).ahead() <= old(self).ahead(),
            final(self).state().pos >= old(self).state().pos,
        decreases old(self).ahead(), 52int,
    {
        let expr = match self.expression() {
            Ok(e) => e,
            Err(e) => {
                return Err(e);
            },
        };
        match self.consume(TokenType::SemiColon, "Expected `;` after value.") {
            Ok(_) => Ok(self.stmt_node(Stmt::Print(StmtPrint { expr }))),
            Err(e) => Err(e),
        }
    }

    fn return_stmt(&mut self) -> (r: Result<usize, LoxErr>)
        requires
            old(self).state().pos >= 1,
        ensures
            final(self).tokens() == old(self).tokens(),
            yields(r, final(self).state(), p_return_stmt(old(self).tokens(), old(self).state())),
            final(self).ahead() <= old(self).ahead(),
            final(self).state().pos >= old(self).state().pos,
        decreases old(self).ahead(), 52int,
    {
        let keyword = self.current - 1;
        let val = if self.check(TokenType::SemiColon) {
            self.expr(ExprKind::Literal(Lit::Nil))
        } else {
            match self.expression() {
                Ok(e) => e,
                Err(e) => {
                    return Err(e);
                },
            }
        };
        match self.consume(TokenType::SemiColon, "Expected `;` after return statement.") {
            Ok(_) => Ok(self.stmt_node(Stmt::Return(StmtReturn { keyword, val }))),
            Err(e) => Err(e),
        }
    }

    fn var_stmt(&mut self) -> (r: Result<usize, LoxErr>)
        ensures
            final(self).tokens() == old(self).tokens(),
            yields(r, final(self).state(), p_var_stmt(old(self).tokens(), old(self).state())),
            final(self).ahead() <= old(self).ahead(),
            final(self).state().pos >= old(self).state().pos,
        decreases old(self).ahead(), 52int,
    {
        let token = match self.consume(TokenType::Identifier, "expected variable name") {
            Ok(t) => t,
            Err(e) => {
                return Err(e);
            },
        };
        let mut expr: Option<usize> = None;
        if self.check(TokenType::Equal) {
            self.advance();
            match self.expression() {
                Ok(e) => {
                    expr = Some(e);
                },
                Err(e) => {
                    return Err(e);
                },
            }
        }
        match self.consume(TokenType::SemiColon, "Expected `;` after variable declaration.") {
            Ok(_) => Ok(self.stmt_node(Stmt::Var(StmtVar { token, expr }))),
            Err(e) => Err(e),
        }
    }

    /// The body of a loop or branch.
    fn body(&mut self, message: &str) -> (r: Result<usize, LoxErr>)
        ensures
            final(self).tokens() == old(self).tokens(),
            yields(r, final(self).state(), p_body(old(self).tokens(), old(self).state(), message@)),
            final(self).ahead() <= old(self).ahead(),
            final(self).state().pos >= old(self).state().pos,
        decreases old(self).ahead(), 57int,
    {
        match self.stmt() {
            Some(id) => Ok(id),
            None => Err(self.error_here(message)),
        }
    }

    fn while_stmt(&mut self) -> (r: Result<usize, LoxErr>)
        ensures
            final(self).tokens() == old(self).tokens(),
            yields(r, final(self).state(), p_while_stmt(old(self).tokens(), old(self).state())),
            final(self).ahead() <= old(self).ahead(),
            final(self).state().pos >= old(self).state().pos,
        decreases old(self).ahead(), 72int,
    {
        match self.consume(TokenType::LeftParen, "Expected `(` after `while` keyword.") {
            Ok(_) => {},
            Err(e) => {
                return Err(e);
            },
        }
        let expr = match self.expression() {
            Ok(e) => e,
            Err(e) => {
                return Err(e);
            },
        };
        match self.consume(TokenType::RightParen, "Expected `)` after `while` condition.") {
            Ok(_) => {},
            Err(e) => {
                return Err(e);
            },
        }
        match self.body("Error in `while` statement body") {
            Ok(stmt) => Ok(self.stmt_node(Stmt::While(StmtWhile { stmt, expr }))),
            Err(e) => Err(e),
        }
    }

    fn if_stmt(&mut self) -> (r: Result<usize, LoxErr>)
        ensures
            final(self).tokens() == old(self).tokens(),
            yields(r, final(self).state(), p_if_stmt(old(self).tokens(), old(self).state())),
            final(self).ahead() <= old(self).ahead(),
            final(self).state().pos >= old(self).state().pos,
        decreases old(self).ahead(), 72int,
    {
        match self.consume(TokenType::LeftParen, "Expected `(` after `if` statement.") {
            Ok(_) => {},
            Err(e) => {
                return Err(e);
            },
        }
        let cond = match self.expression() {
            Ok(e) => e,
            Err(e) => {
                return Err(e);
            },
        };
        match self.consume(TokenType::RightParen, "Expected `)` after `if` condition.") {
            Ok(_) => {},
            Err(e) => {
                return Err(e);
            },
        }
        let then_branch = match self.body("Error in `if` statement clause") {
            Ok(s) => s,
            Err(e) => {
                return Err(e);
            },
        };
        if self.check(TokenType::Else) {
            self.advance();
            match self.body("Error in `if` statement `else` clause") {
                Ok(id) => Ok(
                    self.stmt_node(Stmt::If(StmtIf { cond, then_branch, else_stmt: Some(id) })),
                ),
                Err(e) => Err(e),
            }
        } else {
            Ok(self.stmt_node(Stmt::If(StmtIf { cond, then_branch, else_stmt: None })))
        }
    }

    fn for_init(&mut self) -> (r: Result<Option<usize>, LoxErr>)
        ensures
            final(self).tokens() == old(self).tokens(),
            yields(r, final(self).state(), p_for_init(old(self).tokens(), old(self).state())),
            final(self).ahead() <= old(self).ahead(),
            final(self).state().pos >= old(self).state().pos,
        decreases old(self).ahead(), 53int,
    {
        if self.check(TokenType::SemiColon) {
            self.advance();
            return Ok(None);
        }
        let init = if self.check(TokenType::Var) {
            self.advance();
            self.var_stmt()
        } else {
            self.expr_stmt()
        };
        match init {
            Ok(id) => Ok(Some(id)),
            Err(e) => Err(e),
        }
    }

    fn for_clause(&mut self, end: TokenType, message: &str) -> (r: Result<Option<usize>, LoxErr>)
        ensures
            final(self).tokens() == old(self).tokens(),
            yields(
                r,
                final(self).state(),
                p_for_clause(old(self).tokens(), old(self).state(), end, message@),
            ),
            final(self).ahead() <= old(self).ahead(),
            final(self).state().pos >= old(self).state().pos,
        decreases old(self).ahead(), 53int,
    {
        let mut found: Option<usize> = None;
        if !self.check(end) {
            match self.expression() {
                Ok(id) => {
                    found = Some(id);
                },
                Err(e) => {
                    return Err(e);
                },
            }
        }
        match self.consume(end, message) {
            Ok(_) => Ok(found),
            Err(e) => Err(e),
        }
    }

    /// Builds the statements that a `for` loop stands for.
    fn desugar(
        &mut self,
        init: Option<usize>,
        cond: Option<usize>,
        incr: Option<usize>,
        body: usize,
    ) -> (id: usize)
        ensures
            final(self).tokens() == old(self).tokens(),
            yields(
                Ok::<usize, LoxErr>(id),
                final(self).state(),
                p_desugar(old(self).state(), init, cond, incr, body),
            ),
            final(self).ahead() == old(self).ahead(),
    {
        let mut stepped = body;
        match incr {
            Some(expr) => {
                let step = self.stmt_node(Stmt::Expr(StmtExpr { expr }));
                let mut items: Vec<usize> = Vec::new();
                items.push(body);
                items.push(step);
                assert(items@ =~= seq![body, step]);
                let stmts = self.list(&items);
                stepped = self.stmt_node(Stmt::Block(StmtBlock { stmts }));
            },
            None => {},
        }
        let test = match cond {
            Some(expr) => expr,
            None => self.expr(ExprKind::Literal(Lit::Boolean(false))),
        };
        let looped = self.stmt_node(Stmt::While(StmtWhile { stmt: stepped, expr: test }));
        match init {
            Some(first) => {
                let mut items: Vec<usize> = Vec::new();
                items.push(first);
                items.push(looped);
                assert(items@ =~= seq![first, looped]);
                let stmts = self.list(&items);
                self.stmt_node(Stmt::Block(StmtBlock { stmts }))
            },
            None => looped,
        }
    }

    fn for_stmt(&mut self) -> (r: Result<usize, LoxErr>)
        ensures
            final(self).tokens() == old(self).tokens(),
            yields(r, final(self).state(), p_for_stmt(old(self).tokens(), old(self).state())),
            final(self).ahead() <= old(self).ahead(),
            final(self).state().pos >= old(self).state().pos,
        decreases old(self).ahead(), 72int,
    {
        match self.consume(TokenType::LeftParen, "Expected `(` after `for` statement.") {
            Ok(_) => {},
            Err(e) => {
                return Err(e);
            },
        }
        let init = match self.for_init() {
            Ok(i) => i,
            Err(e) => {
                return Err(e);
            },
        };
        let cond = match self.for_clause(
            TokenType::SemiColon,
            "Expected `;` after `for` condition.",
        ) {
            Ok(c) => c,
            Err(e) => {
                return Err(e);
            },
        };
        let incr = match self.for_clause(
            TokenType::RightParen,
            "Expected `)` after `for` clause.",
        ) {
            Ok(c) => c,
            Err(e) => {
                return Err(e);
            },
        };
        match self.body("Error in `for` statement clause") {
            Ok(body) => Ok(self.desugar(init, cond, incr, body)),
            Err(e) => Err(e),
        }
    }

    fn fun_stmt(&mut self, kind: &str) -> (r: Result<usize, LoxErr>)
        ensures
            final(self).tokens() == old(self).tokens(),
            yields(r, final(self).state(), p_fun_stmt(old(self).tokens(), old(self).state(), kind@)),
            final(self).ahead() <= old(self).ahead(),
            final(self).state().pos >= old(self).state().pos,
            r is Ok ==> final(self).state().pos > old(self).state().pos,
        decreases old(self).ahead(), 73int,
    {
        let wanted = join(join("expected ", kind).as_str(), " name");
        let name = match self.consume(TokenType::Identifier, wanted.as_str()) {
            Ok(n) => n,
            Err(e) => {
                return Err(e);
            },
        };
        let paren = join(join("expected `(` after `", kind).as_str(), "` identifier");
        match self.consume(TokenType::LeftParen, paren.as_str()) {
            Ok(_) => {},
            Err(e) => {
                return Err(e);
            },
        }
        let brace = join(join("Expected `{` before ", kind).as_str(), " body");
        match self.function(brace.as_str()) {
            Ok(def) => Ok(self.stmt_node(Stmt::Fun(StmtFun { name, def }))),
            Err(e) => Err(e),
        }
    }

    fn methods(&mut self, methods: Vec<usize>) -> (r: Result<Vec<usize>, LoxErr>)
        ensures
            final(self).tokens() == old(self).tokens(),
            final(self).state() == p_methods(old(self).tokens(), old(self).state(), methods@).st,
            match p_methods(old(self).tokens(), old(self).state(), methods@).r {
                Ok(items) => r is Ok && r->Ok_0@ == items,
                Err(e) => r is Err && r->Err_0@ == e,
            },
            final(self).ahead() <= old(self).ahead(),
            final(self).state().pos >= old(self).state().pos,
        decreases old(self).ahead(), 74int,
    {
        let mut methods = methods;
        if self.is_at_end() || self.check(TokenType::RightBrace) {
            return Ok(methods);
        }
        match self.fun_stmt("method") {
            Ok(id) => {
                methods.push(id);
                self.methods(methods)
            },
            Err(_) => Err(self.error_here("Error in `class` statement body")),
        }
    }

    fn class_stmt(&mut self) -> (r: Result<usize, LoxErr>)
        ensures
            final(self).tokens() == old(self).tokens(),
            yields(r, final(self).state(), p_class_stmt(old(self).tokens(), old(self).state())),
            final(self).ahead() <= old(self).ahead(),
            final(self).state().pos >= old(self).state().pos,
        decreases old(self).ahead(), 75int,
    {
        let name = match self.consume(
            TokenType::Identifier,
            "Expected `identifier` after `class` keyword.",
        ) {
            Ok(n) => n,
            Err(e) => {
                return Err(e);
            },
        };
        let mut superclass: Option<usize> = None;
        if self.check(TokenType::Less) {
            self.advance();
            match self.consume(
                TokenType::Identifier,
                "Expected identifier after superclass `<` character.",
            ) {
                Ok(token) => {
                    superclass = Some(self.expr(ExprKind::Var(token)));
                },
                Err(e) => {
                    return Err(e);
                },
            }
        }
        match self.consume(TokenType::LeftBrace, "Expected `{` before `class` body") {
            Ok(_) => {},
            Err(e) => {
                return Err(e);
            },
        }
        let methods = match self.methods(Vec::new()) {
            Ok(m) => m,
            Err(e) => {
                return Err(e);
            },
        };
        match self.consume(TokenType::RightBrace, "Expected `}` after class body.") {
            Ok(_) => {},
            Err(e) => {
                return Err(e);
            },
        }
        let list = self.list(&methods);
        Ok(self.stmt_node(Stmt::Class(StmtClass { name, superclass, methods: list })))
    }

    fn program(&mut self, stmts: Vec<usize>) -> (r: Vec<usize>)
        ensures
            final(self).tokens() == old(self).tokens(),
            final(self).state() == p_program(old(self).tokens(), old(self).state(), stmts@).0,
            r@ == p_program(old(self).tokens(), old(self).state(), stmts@).1,
        decreases old(self).ahead(),
    {
        let mut stmts = stmts;
        let ghost tokens = self.tokens();
        let ghost goal = p_program(tokens, self.state(), stmts@);
        while !self.is_at_end()
            invariant
                self.tokens() == tokens,
                p_program(tokens, self.state(), stmts@) == goal,
            decreases self.ahead(),
        {
            match self.stmt() {
                Some(id) => {
                    stmts.push(id);
                },
                None => {},
            }
        }
        stmts
    }

    /// Parses the tokens from the position to the end.  Returns the
    /// statements in order if no error was reported, and the errors otherwise.
    /// The tree holds the statements that parsed in either case.
    pub fn parse(&mut self) -> (r: Result<Vec<usize>, Vec<LoxErr>>)
        ensures
            final(self).tokens() == old(self).tokens(),
            ({
                let end = p_program(old(self).tokens(), old(self).state(), Seq::empty());
                &&& final(self).state() == ParseState { errors: Seq::empty(), ..end.0 }
                &&& end.0.errors.len() == 0 ==> r is Ok && r->Ok_0@ == end.1
                &&& end.0.errors.len() > 0 ==> r is Err && err_views(r->Err_0@) == end.0.errors
            }),
    {
        let stmts = self.program(Vec::new());
        let mut errors: Vec<LoxErr> = Vec::new();
        std::mem::swap(&mut self.errors, &mut errors);
        assert(err_views(self.errors@) =~= Seq::empty());
        if errors.len() == 0 {
            Ok(stmts)
        } else {
            Err(errors)
        }
    }
}

/// A function literal after the keyword `fun`: `"(" params? ")" block`.
pub open spec fn p_func(tokens: Seq<TokenView>, st: ParseState) -> Outcome<usize> {
    let open = p_consume(tokens, st, TokenType::LeftParen, "Expected `(` after `fun` keyword."@);
    match open.r {
        Err(_) => open,
        Ok(_) => {
            let def = p_function(tokens, open.st, "Expected `{` before func body"@);
            match def.r {
                Err(e) => err(def.st, e),
                Ok(f) => p_expr(def.st, ExprKind::Function(f)),
            }
        },
    }
}

} // verus!
