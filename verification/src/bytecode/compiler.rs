//! The single-pass compiler: tokens to a chunk, by precedence climbing.
//!
//! [`get_rule`] is the table that drives it.  What the compiler emits is
//! stated by [`compiled`] and the functions it is built from; [`compile`]
//! computes exactly that.
use vstd::prelude::*;

use crate::bytecode::chunk::{with_constant, written, Chunk, ChunkView, MAX_CONST_POOL};
use crate::bytecode::object::{interned, place_of, StringPool, MAX_OBJECTS};
use crate::bytecode::opcode;
use crate::bytecode::parser::{advanced, consumed, curr_at, prev_at, Parser};
use crate::bytecode::value::{Value, FALSE_BITS, HANDLE_MASK, NIL_BITS, OBJECT_TAG, TRUE_BITS};
use crate::error::{
    CompilerError, CompilerErrorView, InternalError, LoxError, LoxErrorView, OverflowError,
};
use crate::scanner::views;
use crate::token::{no_span, token_text, Literal, LiteralView, Span, Token, TokenType, TokenView};

verus! {

/// No precedence: what ends an expression.
pub const PREC_NONE: u8 = 0;

/// `=`
pub const PREC_ASSIGNMENT: u8 = 1;

/// `? :`
pub const PREC_TERNARY: u8 = 2;

/// `or`
pub const PREC_OR: u8 = 3;

/// `and`
pub const PREC_AND: u8 = 4;

/// `==` and `!=`
pub const PREC_EQUALITY: u8 = 5;

/// `<`, `>`, `<=` and `>=`
pub const PREC_COMPARISON: u8 = 6;

/// `+` and `-`
pub const PREC_TERM: u8 = 7;

/// `*` and `/`
pub const PREC_FACTOR: u8 = 8;

/// Prefix `!` and `-`
pub const PREC_UNARY: u8 = 9;

/// `.` and `()`
pub const PREC_CALL: u8 = 10;

/// Literals and groupings.
pub const PREC_PRIMARY: u8 = 11;

/// The ways to compile a token.
#[derive(Clone, Copy, Debug, PartialEq, Eq, Structural)]
pub enum Rule {
    Grouping,
    Unary,
    Binary,
    Ternary,
    String,
    Number,
    Literal,
}

/// How a token kind is compiled: at the start of an expression, after an
/// operand, and how tightly it binds as an operator.
#[derive(Clone, Copy, Debug, PartialEq, Eq, Structural)]
pub struct ParseLogic {
    pub prefix: Option<Rule>,
    pub infix: Option<Rule>,
    pub precedence: u8,
}

/// A kind that has no place in an expression.
pub open spec fn without_rule(t: TokenType) -> bool {
    t == TokenType::Class || t == TokenType::Else || t == TokenType::Fun || t == TokenType::For
        || t == TokenType::If || t == TokenType::Print || t == TokenType::Return || t
        == TokenType::Super || t == TokenType::This || t == TokenType::Var || t
        == TokenType::While || t == TokenType::Eof
}

/// The rule of a token kind that is only an operator between operands.
pub open spec fn operator_rule(precedence: u8) -> ParseLogic {
    ParseLogic { prefix: None, infix: Some(Rule::Binary), precedence }
}

/// The rule of a token kind that starts an operand and is nothing else.
pub open spec fn operand_rule(rule: Rule) -> ParseLogic {
    ParseLogic { prefix: Some(rule), infix: None, precedence: PREC_NONE }
}

/// The table: the rule of each token kind that can stand in an expression.
pub open spec fn rule_of(t: TokenType) -> ParseLogic {
    match t {
        TokenType::QuestionMark => ParseLogic {
            prefix: None,
            infix: Some(Rule::Ternary),
            precedence: PREC_TERNARY,
        },
        TokenType::LeftParen => operand_rule(Rule::Grouping),
        TokenType::Minus => ParseLogic {
            prefix: Some(Rule::Unary),
            infix: Some(Rule::Binary),
            precedence: PREC_TERM,
        },
        TokenType::Bang => operand_rule(Rule::Unary),
        TokenType::Plus => operator_rule(PREC_TERM),
        TokenType::Slash => operator_rule(PREC_FACTOR),
        TokenType::Star => operator_rule(PREC_FACTOR),
        TokenType::Less => operator_rule(PREC_COMPARISON),
        TokenType::Greater => operator_rule(PREC_COMPARISON),
        TokenType::LessEqual => operator_rule(PREC_COMPARISON),
        TokenType::GreaterEqual => operator_rule(PREC_COMPARISON),
        TokenType::BangEqual => operator_rule(PREC_EQUALITY),
        TokenType::EqualEqual => operator_rule(PREC_EQUALITY),
        TokenType::String => operand_rule(Rule::String),
        TokenType::Number => operand_rule(Rule::Number),
        TokenType::True => operand_rule(Rule::Literal),
        TokenType::False => operand_rule(Rule::Literal),
        TokenType::Nil => operand_rule(Rule::Literal),
        _ => ParseLogic { prefix: None, infix: None, precedence: PREC_NONE },
    }
}

/// An error about the token `t`.
pub open spec fn token_error(e: CompilerErrorView, t: TokenView) -> (LoxErrorView, Span) {
    (LoxErrorView::CompilerError(e), t.span)
}

/// The error of a path that should not be taken.
pub open spec fn unexpected(span: Span) -> (LoxErrorView, Span) {
    (LoxErrorView::InternalError(InternalError::UnexpectedCodePath), span)
}

/// The rule of the token `t`, or the error of a token that has none.
pub open spec fn rule_for(t: TokenView) -> Result<ParseLogic, (LoxErrorView, Span)> {
    if without_rule(t.token_type) {
        Err(token_error(CompilerErrorView::ParseLogicNotFound(token_text(t.token_type)), t))
    } else {
        Ok(rule_of(t.token_type))
    }
}

/// The rule of `token`.
pub fn get_rule(token: &Token) -> (r: Result<ParseLogic, (LoxError, Span)>)
    ensures
        match rule_for(token@) {
            Ok(rule) => r == Ok::<ParseLogic, (LoxError, Span)>(rule),
            Err(e) => r is Err && r->Err_0.0@ == e.0 && r->Err_0.1 == e.1,
        },
{
    let operand = |rule: Rule| -> (l: ParseLogic)
        ensures
            l == operand_rule(rule),
        { ParseLogic { prefix: Some(rule), infix: None, precedence: PREC_NONE } };
    let operator = |precedence: u8| -> (l: ParseLogic)
        ensures
            l == operator_rule(precedence),
        { ParseLogic { prefix: None, infix: Some(Rule::Binary), precedence } };
    let none = ParseLogic { prefix: None, infix: None, precedence: PREC_NONE };
    match token.token_type {
        TokenType::Colon => Ok(none),
        TokenType::QuestionMark => Ok(
            ParseLogic { prefix: None, infix: Some(Rule::Ternary), precedence: PREC_TERNARY },
        ),
        TokenType::LeftParen => Ok(operand(Rule::Grouping)),
        TokenType::RightParen => Ok(none),
        TokenType::LeftBrace => Ok(none),
        TokenType::RightBrace => Ok(none),
        TokenType::SemiColon => Ok(none),
        TokenType::Comma => Ok(none),
        TokenType::Dot => Ok(none),
        TokenType::Minus => Ok(
            ParseLogic {
                prefix: Some(Rule::Unary),
                infix: Some(Rule::Binary),
                precedence: PREC_TERM,
            },
        ),
        TokenType::Bang => Ok(operand(Rule::Unary)),
        TokenType::Plus => Ok(operator(PREC_TERM)),
        TokenType::Slash => Ok(operator(PREC_FACTOR)),
        TokenType::Star => Ok(operator(PREC_FACTOR)),
        TokenType::Equal => Ok(none),
        TokenType::Less => Ok(operator(PREC_COMPARISON)),
        TokenType::Greater => Ok(operator(PREC_COMPARISON)),
        TokenType::BangEqual => Ok(operator(PREC_EQUALITY)),
        TokenType::EqualEqual => Ok(operator(PREC_EQUALITY)),
        TokenType::LessEqual => Ok(operator(PREC_COMPARISON)),
        TokenType::GreaterEqual => Ok(operator(PREC_COMPARISON)),
        TokenType::And => Ok(none),
        TokenType::Or => Ok(none),
        TokenType::Identifier => Ok(none),
        TokenType::String => Ok(operand(Rule::String)),
        TokenType::Number => Ok(operand(Rule::Number)),
        TokenType::True => Ok(operand(Rule::Literal)),
        TokenType::False => Ok(operand(Rule::Literal)),
        TokenType::Nil => Ok(operand(Rule::Literal)),
        other => Err(
            (
                LoxError::CompilerError(
                    CompilerError::ParseLogicNotFound(other.text().to_owned()),
                ),
                token.span,
            ),
        ),
    }
}


/// Where a compilation stands: the position in the tokens, what has been
/// emitted, and the strings interned.
pub struct Emit {
    pub pos: int,
    pub chunk: ChunkView,
    pub pool: Seq<Seq<char>>,
}

/// `st` with one more byte of code.
pub open spec fn emit_byte(st: Emit, byte: u8, span: Span) -> Emit {
    Emit { chunk: written(st.chunk, byte, span), ..st }
}

/// `st` with the constant `word` and the instruction that loads it, if the pool has room.
pub open spec fn emit_constant(st: Emit, word: u64, span: Span) -> Result<
    Emit,
    (LoxErrorView, Span),
> {
    if st.chunk.constants.len() < MAX_CONST_POOL {
        Ok(Emit { chunk: with_constant(st.chunk, opcode::CONSTANT, word, span), ..st })
    } else {
        Err(
            (
                LoxErrorView::OverflowError(OverflowError::ExceedsConstSize(MAX_CONST_POOL)),
                span,
            ),
        )
    }
}

/// `st` at position `pos`.
pub open spec fn at(st: Emit, pos: int) -> Emit {
    Emit { pos, ..st }
}

/// How far the end of the positions is from `pos`.
pub open spec fn remaining(tokens: Seq<TokenView>, pos: int) -> int {
    tokens.len() + 2 - pos
}

/// The code of the operator `t` between two compiled operands.
pub open spec fn binary_code(st: Emit, t: TokenView) -> Result<Emit, (LoxErrorView, Span)> {
    match t.token_type {
        TokenType::BangEqual => Ok(
            emit_byte(emit_byte(st, opcode::EQUAL, t.span), opcode::NOT, t.span),
        ),
        TokenType::EqualEqual => Ok(emit_byte(st, opcode::EQUAL, t.span)),
        TokenType::Greater => Ok(emit_byte(st, opcode::GREATER, t.span)),
        TokenType::GreaterEqual => Ok(
            emit_byte(emit_byte(st, opcode::LESS, t.span), opcode::NOT, t.span),
        ),
        TokenType::Less => Ok(emit_byte(st, opcode::LESS, t.span)),
        TokenType::LessEqual => Ok(
            emit_byte(emit_byte(st, opcode::GREATER, t.span), opcode::NOT, t.span),
        ),
        TokenType::Plus => Ok(emit_byte(st, opcode::ADD, t.span)),
        TokenType::Minus => Ok(emit_byte(st, opcode::SUBTRACT, t.span)),
        TokenType::Star => Ok(emit_byte(st, opcode::MULTIPLY, t.span)),
        TokenType::Slash => Ok(emit_byte(st, opcode::DIVIDE, t.span)),
        _ => Err(unexpected(t.span)),
    }
}

/// The code of the literal that the token before `st.pos` is, by `rule`.
pub open spec fn literal_code(tokens: Seq<TokenView>, st: Emit, rule: Rule) -> Result<
    Emit,
    (LoxErrorView, Span),
> {
    let none_found = (
        LoxErrorView::CompilerError(CompilerErrorView::UnimplementedType("NONE_FOUND"@)),
        no_span(),
    );
    match prev_at(tokens, st.pos) {
        None => if rule == Rule::Number {
            Err(unexpected(no_span()))
        } else {
            Err(none_found)
        },
        Some(t) => {
            let wrong = token_error(
                CompilerErrorView::UnimplementedType(token_text(t.token_type)),
                t,
            );
            if rule == Rule::Number {
                match t.literal {
                    Some(LiteralView::Number(bits)) => if t.token_type == TokenType::Number {
                        emit_constant(st, bits, t.span)
                    } else {
                        Err(unexpected(no_span()))
                    },
                    _ => Err(unexpected(no_span())),
                }
            } else if rule == Rule::String {
                match t.literal {
                    Some(LiteralView::String(s)) => if t.token_type == TokenType::String {
                        let handle = place_of(st.pool, s);
                        if handle == st.pool.len() && st.pool.len() >= MAX_OBJECTS {
                            Err(
                                (
                                    LoxErrorView::OverflowError(
                                        OverflowError::ExceedsPoolSize(MAX_OBJECTS),
                                    ),
                                    t.span,
                                ),
                            )
                        } else {
                            emit_constant(
                                Emit { pool: interned(st.pool, s), ..st },
                                ((handle as u64) & HANDLE_MASK) | OBJECT_TAG,
                                t.span,
                            )
                        }
                    } else {
                        Err(wrong)
                    },
                    _ => Err(wrong),
                }
            } else if t.token_type == TokenType::True {
                emit_constant(st, TRUE_BITS, t.span)
            } else if t.token_type == TokenType::False {
                emit_constant(st, FALSE_BITS, t.span)
            } else if t.token_type == TokenType::Nil {
                emit_constant(st, NIL_BITS, t.span)
            } else {
                Err(wrong)
            }
        },
    }
}

/// The code of an expression whose operators bind at least as tightly as
/// `prec`, starting with the token at `st.pos`.
pub open spec fn compiled_precedence(tokens: Seq<TokenView>, st: Emit, prec: int) -> Result<
    Emit,
    (LoxErrorView, Span),
>
    decreases remaining(tokens, st.pos), 0int,
{
    let st1 = at(st, advanced(tokens, st.pos));
    match prev_at(tokens, st1.pos) {
        None => Ok(st1),
        Some(t) => if t.token_type == TokenType::Eof {
            Ok(st1)
        } else {
            match rule_for(t) {
                Err(e) => Err(e),
                Ok(logic) => match logic.prefix {
                    None => Err(
                        token_error(
                            CompilerErrorView::PrecedenceError(token_text(t.token_type)),
                            t,
                        ),
                    ),
                    Some(rule) => match compiled_operand(tokens, st1, rule) {
                        Err(e) => Err(e),
                        Ok(st2) => if st2.pos <= st.pos || st2.pos > tokens.len() + 1 {
                            Ok(st2)
                        } else {
                            compiled_operators(tokens, st2, prec)
                        },
                    },
                },
            }
        },
    }
}

/// The code of the operand that the token before `st.pos` starts, by `rule`.
pub open spec fn compiled_operand(tokens: Seq<TokenView>, st: Emit, rule: Rule) -> Result<
    Emit,
    (LoxErrorView, Span),
>
    decreases remaining(tokens, st.pos), 1int,
{
    match rule {
        Rule::Number | Rule::String | Rule::Literal => literal_code(tokens, st, rule),
        Rule::Grouping => match compiled_precedence(tokens, st, PREC_ASSIGNMENT as int) {
            Err(e) => Err(e),
            Ok(st2) => match consumed(
                tokens,
                st2.pos,
                TokenType::RightParen,
                "Expected `)` after expression"@,
            ) {
                Ok(pos) => Ok(at(st2, pos)),
                Err(e) => Err(e),
            },
        },
        Rule::Unary => match compiled_precedence(tokens, st, PREC_UNARY as int) {
            Err(e) => Err(e),
            Ok(st2) => match prev_at(tokens, st.pos) {
                Some(t) => if t.token_type == TokenType::Minus {
                    Ok(emit_byte(st2, opcode::NEGATE, t.span))
                } else if t.token_type == TokenType::Bang {
                    Ok(emit_byte(st2, opcode::NOT, t.span))
                } else {
                    Err(unexpected(t.span))
                },
                None => Err(unexpected(no_span())),
            },
        },
        _ => Err(unexpected(no_span())),
    }
}

/// The code of the operators, with their right operands, that follow a
/// compiled operand and bind at least as tightly as `prec`.
pub open spec fn compiled_operators(tokens: Seq<TokenView>, st: Emit, prec: int) -> Result<
    Emit,
    (LoxErrorView, Span),
>
    decreases remaining(tokens, st.pos), 2int,
{
    match curr_at(tokens, st.pos) {
        None => Ok(st),
        Some(t) => if t.token_type == TokenType::Eof {
            Ok(st)
        } else {
            match rule_for(t) {
                Err(e) => Err(e),
                Ok(logic) => if prec > logic.precedence {
                    Ok(st)
                } else {
                    let st1 = at(st, st.pos + 1);
                    match logic.infix {
                        None => Ok(st1),
                        Some(rule) => match compiled_operator(tokens, st1, rule) {
                            Err(e) => Err(e),
                            Ok(st2) => if st2.pos <= st.pos || st2.pos > tokens.len() + 1 {
                                Ok(st2)
                            } else {
                                compiled_operators(tokens, st2, prec)
                            },
                        },
                    }
                },
            }
        },
    }
}

/// The code of what follows the operator before `st.pos`, and of the operator itself.
pub open spec fn compiled_operator(tokens: Seq<TokenView>, st: Emit, rule: Rule) -> Result<
    Emit,
    (LoxErrorView, Span),
>
    decreases remaining(tokens, st.pos), 1int,
{
    match prev_at(tokens, st.pos) {
        None => Err(unexpected(no_span())),
        Some(t) => match rule {
            Rule::Binary => match rule_for(t) {
                Err(e) => Err(e),
                Ok(logic) => match compiled_precedence(tokens, st, logic.precedence + 1) {
                    Err(e) => Err(e),
                    Ok(st2) => binary_code(st2, t),
                },
            },
            Rule::Ternary => match compiled_precedence(tokens, st, PREC_TERNARY as int) {
                Err(e) => Err(e),
                Ok(st2) => match consumed(
                    tokens,
                    st2.pos,
                    TokenType::Colon,
                    "Expected `:` after expression"@,
                ) {
                    Err(e) => Err(e),
                    Ok(pos) => if pos < st.pos || pos > tokens.len() + 1 {
                        Err(unexpected(t.span))
                    } else {
                        match compiled_precedence(tokens, at(st2, pos), PREC_TERNARY as int) {
                            Err(e) => Err(e),
                            Ok(st4) => if t.token_type == TokenType::QuestionMark {
                                Ok(emit_byte(st4, opcode::TERNARY_LOGICAL, t.span))
                            } else {
                                Err(unexpected(t.span))
                            },
                        }
                    },
                },
            },
            _ => Err(unexpected(no_span())),
        },
    }
}

/// A chunk without code or constants.
pub open spec fn empty_chunk() -> ChunkView {
    ChunkView { code: Seq::empty(), spans: Seq::empty(), constants: Seq::empty() }
}

/// The compilation of `tokens` with the strings `pool` interned before: the
/// code of the expression, then `RETURN`.
pub open spec fn compiled(tokens: Seq<TokenView>, pool: Seq<Seq<char>>) -> Result<
    Emit,
    (LoxErrorView, Span),
> {
    match compiled_precedence(
        tokens,
        Emit { pos: 0, chunk: empty_chunk(), pool },
        PREC_ASSIGNMENT as int,
    ) {
        Err(e) => Err(e),
        Ok(st) => Ok(emit_byte(st, opcode::RETURN, no_span())),
    }
}

/// Compiling never moves backwards in the tokens, and never past their end.
pub proof fn lemma_precedence_advances(tokens: Seq<TokenView>, st: Emit, prec: int)
    requires
        0 <= st.pos <= tokens.len() + 1,
    ensures
        match compiled_precedence(tokens, st, prec) {
            Ok(st2) => st.pos <= st2.pos <= tokens.len() + 1 && (st.pos <= tokens.len()
                ==> st.pos < st2.pos),
            Err(_) => true,
        },
    decreases remaining(tokens, st.pos), 0int,
{
    let st1 = at(st, advanced(tokens, st.pos));
    match prev_at(tokens, st1.pos) {
        None => {},
        Some(t) => if t.token_type != TokenType::Eof {
            match rule_for(t) {
                Err(e) => {},
                Ok(logic) => match logic.prefix {
                    None => {},
                    Some(rule) => {
                        lemma_operand_advances(tokens, st1, rule);
                        match compiled_operand(tokens, st1, rule) {
                            Err(e) => {},
                            Ok(st2) => {
                                lemma_operators_advance(tokens, st2, prec);
                            },
                        }
                    },
                },
            }
        },
    }
}

proof fn lemma_operand_advances(tokens: Seq<TokenView>, st: Emit, rule: Rule)
    requires
        0 <= st.pos <= tokens.len() + 1,
    ensures
        match compiled_operand(tokens, st, rule) {
            Ok(st2) => st.pos <= st2.pos <= tokens.len() + 1,
            Err(_) => true,
        },
    decreases remaining(tokens, st.pos), 1int,
{
    match rule {
        Rule::Grouping => {
            lemma_precedence_advances(tokens, st, PREC_ASSIGNMENT as int);
        },
        Rule::Unary => {
            lemma_precedence_advances(tokens, st, PREC_UNARY as int);
        },
        _ => {},
    }
}

proof fn lemma_operators_advance(tokens: Seq<TokenView>, st: Emit, prec: int)
    requires
        0 <= st.pos <= tokens.len() + 1,
    ensures
        match compiled_operators(tokens, st, prec) {
            Ok(st2) => st.pos <= st2.pos <= tokens.len() + 1,
            Err(_) => true,
        },
    decreases remaining(tokens, st.pos), 2int,
{
    match curr_at(tokens, st.pos) {
        None => {},
        Some(t) => if t.token_type != TokenType::Eof {
            match rule_for(t) {
                Err(e) => {},
                Ok(logic) => if prec <= logic.precedence {
                    let st1 = at(st, st.pos + 1);
                    match logic.infix {
                        None => {},
                        Some(rule) => {
                            lemma_operator_advances(tokens, st1, rule);
                            match compiled_operator(tokens, st1, rule) {
                                Err(e) => {},
                                Ok(st2) => {
                                    lemma_operators_advance(tokens, st2, prec);
                                },
                            }
                        },
                    }
                },
            }
        },
    }
}

proof fn lemma_operator_advances(tokens: Seq<TokenView>, st: Emit, rule: Rule)
    requires
        0 <= st.pos <= tokens.len() + 1,
    ensures
        match compiled_operator(tokens, st, rule) {
            Ok(st2) => st.pos <= st2.pos <= tokens.len() + 1,
            Err(_) => true,
        },
    decreases remaining(tokens, st.pos), 1int,
{
    match prev_at(tokens, st.pos) {
        None => {},
        Some(t) => match rule {
            Rule::Binary => match rule_for(t) {
                Err(e) => {},
                Ok(logic) => {
                    lemma_precedence_advances(tokens, st, logic.precedence + 1);
                },
            },
            Rule::Ternary => {
                lemma_precedence_advances(tokens, st, PREC_TERNARY as int);
                match compiled_precedence(tokens, st, PREC_TERNARY as int) {
                    Err(e) => {},
                    Ok(st2) => match consumed(
                        tokens,
                        st2.pos,
                        TokenType::Colon,
                        "Expected `:` after expression"@,
                    ) {
                        Err(e) => {},
                        Ok(pos) => {
                            lemma_precedence_advances(tokens, at(st2, pos), PREC_TERNARY as int);
                        },
                    },
                }
            },
            _ => {},
        },
    }
}


/// Whether the outcome `r`, with the compiler left in state `st`, is the outcome `expected`.
pub open spec fn agrees(
    r: Result<(), (LoxError, Span)>,
    st: Emit,
    expected: Result<Emit, (LoxErrorView, Span)>,
) -> bool {
    match expected {
        Ok(e) => r is Ok && st == e,
        Err(e) => r is Err && r->Err_0.0@ == e.0 && r->Err_0.1 == e.1,
    }
}

struct Compiler {
    chunk: Chunk,
    parser: Parser,
    pool: StringPool,
}

impl Compiler {
    spec fn tokens(&self) -> Seq<TokenView> {
        self.parser.tokens()
    }

    spec fn state(&self) -> Emit {
        Emit { pos: self.parser.pos(), chunk: self.chunk@, pool: self.pool@ }
    }

    spec fn left(&self) -> int {
        remaining(self.tokens(), self.state().pos)
    }

    fn emit_byte(&mut self, byte: u8, span: Span)
        ensures
            final(self).tokens() == old(self).tokens(),
            final(self).state() == emit_byte(old(self).state(), byte, span),
    {
        self.chunk.write_chunk(byte, span);
    }

    fn emit_return(&mut self)
        ensures
            final(self).tokens() == old(self).tokens(),
            final(self).state() == emit_byte(old(self).state(), opcode::RETURN, no_span()),
    {
        self.emit_byte(opcode::RETURN, Span::none());
    }

    fn emit_constant(&mut self, value: Value, span: Span) -> (r: Result<(), (LoxError, Span)>)
        ensures
            final(self).tokens() == old(self).tokens(),
            agrees(r, final(self).state(), emit_constant(old(self).state(), value.0, span)),
    {
        self.chunk.add_constant(opcode::CONSTANT, value, &span)
    }

    fn number(&mut self) -> (r: Result<(), (LoxError, Span)>)
        ensures
            final(self).tokens() == old(self).tokens(),
            agrees(
                r,
                final(self).state(),
                literal_code(old(self).tokens(), old(self).state(), Rule::Number),
            ),
    {
        let found = match self.parser.prev() {
            Some(t) => match &t.literal {
                Some(Literal::Number(bits)) => if t.token_type == TokenType::Number {
                    Some((*bits, t.span))
                } else {
                    None
                },
                _ => None,
            },
            None => None,
        };
        match found {
            Some((bits, span)) => self.emit_constant(Value::from_number(bits), span),
            None => Err((LoxError::unexpected(), Span::none())),
        }
    }

    fn string(&mut self) -> (r: Result<(), (LoxError, Span)>)
        ensures
            final(self).tokens() == old(self).tokens(),
            agrees(
                r,
                final(self).state(),
                literal_code(old(self).tokens(), old(self).state(), Rule::String),
            ),
    {
        let interned = match self.parser.prev() {
            None => {
                return Err(
                    (
                        LoxError::CompilerError(
                            CompilerError::UnimplementedType("NONE_FOUND".to_owned()),
                        ),
                        Span::none(),
                    ),
                );
            },
            Some(t) => {
                let text = match &t.literal {
                    Some(Literal::String(s)) => if t.token_type == TokenType::String {
                        Some(s)
                    } else {
                        None
                    },
                    _ => None,
                };
                match text {
                    Some(s) => match self.pool.intern_string(s.as_str()) {
                        Ok(object) => (object, t.span),
                        Err(e) => {
                            return Err((e, t.span));
                        },
                    },
                    None => {
                        return Err(
                            (
                                LoxError::CompilerError(
                                    CompilerError::UnimplementedType(
                                        t.token_type.text().to_owned(),
                                    ),
                                ),
                                t.span,
                            ),
                        );
                    },
                }
            },
        };
        self.emit_constant(Value::from_object(interned.0), interned.1)
    }

    fn literal(&mut self) -> (r: Result<(), (LoxError, Span)>)
        ensures
            final(self).tokens() == old(self).tokens(),
            agrees(
                r,
                final(self).state(),
                literal_code(old(self).tokens(), old(self).state(), Rule::Literal),
            ),
    {
        let found = match self.parser.prev() {
            None => {
                return Err(
                    (
                        LoxError::CompilerError(
                            CompilerError::UnimplementedType("NONE_FOUND".to_owned()),
                        ),
                        Span::none(),
                    ),
                );
            },
            Some(t) => (t.token_type, t.span),
        };
        match found.0 {
            TokenType::True => self.emit_constant(Value::from_bool(true), found.1),
            TokenType::False => self.emit_constant(Value::from_bool(false), found.1),
            TokenType::Nil => self.emit_constant(Value::nil(), found.1),
            other => Err(
                (
                    LoxError::CompilerError(
                        CompilerError::UnimplementedType(other.text().to_owned()),
                    ),
                    found.1,
                ),
            ),
        }
    }

    fn expression(&mut self) -> (r: Result<(), (LoxError, Span)>)
        ensures
            final(self).tokens() == old(self).tokens(),
            agrees(
                r,
                final(self).state(),
                compiled_precedence(
                    old(self).tokens(),
                    old(self).state(),
                    PREC_ASSIGNMENT as int,
                ),
            ),
        decreases old(self).left(), 1int,
    {
        self.parse_precedence(PREC_ASSIGNMENT)
    }

    fn grouping(&mut self) -> (r: Result<(), (LoxError, Span)>)
        ensures
            final(self).tokens() == old(self).tokens(),
            agrees(
                r,
                final(self).state(),
                compiled_operand(old(self).tokens(), old(self).state(), Rule::Grouping),
            ),
        decreases old(self).left(), 2int,
    {
        match self.expression() {
            Err(e) => {
                return Err(e);
            },
            Ok(()) => {},
        }
        self.parser.consume(TokenType::RightParen, "Expected `)` after expression")
    }

    fn unary(&mut self) -> (r: Result<(), (LoxError, Span)>)
        ensures
            final(self).tokens() == old(self).tokens(),
            agrees(
                r,
                final(self).state(),
                compiled_operand(old(self).tokens(), old(self).state(), Rule::Unary),
            ),
        decreases old(self).left(), 2int,
    {
        let kind = match self.parser.prev() {
            Some(t) => Some((t.token_type, t.span)),
            None => None,
        };
        match self.parse_precedence(PREC_UNARY) {
            Err(e) => {
                return Err(e);
            },
            Ok(()) => {},
        }
        match kind {
            Some((TokenType::Minus, span)) => {
                self.emit_byte(opcode::NEGATE, span);
                Ok(())
            },
            Some((TokenType::Bang, span)) => {
                self.emit_byte(opcode::NOT, span);
                Ok(())
            },
            Some((_, span)) => Err((LoxError::unexpected(), span)),
            None => Err((LoxError::unexpected(), Span::none())),
        }
    }

    /// Compiles the operand that the previous token starts.
    fn operand(&mut self, rule: Rule) -> (r: Result<(), (LoxError, Span)>)
        ensures
            final(self).tokens() == old(self).tokens(),
            agrees(
                r,
                final(self).state(),
                compiled_operand(old(self).tokens(), old(self).state(), rule),
            ),
        decreases old(self).left(), 3int,
    {
        match rule {
            Rule::Number => self.number(),
            Rule::String => self.string(),
            Rule::Literal => self.literal(),
            Rule::Grouping => self.grouping(),
            Rule::Unary => self.unary(),
            _ => Err((LoxError::unexpected(), Span::none())),
        }
    }

    /// Emits the code of the operator of kind `kind` at `span`.
    fn binary_code(&mut self, kind: TokenType, span: Span) -> (r: Result<(), (LoxError, Span)>)
        ensures
            final(self).tokens() == old(self).tokens(),
            forall|t: TokenView|
                t.token_type == kind && t.span == span ==> agrees(
                    r,
                    final(self).state(),
                    #[trigger] binary_code(old(self).state(), t),
                ),
    {
        match kind {
            TokenType::BangEqual => {
                self.emit_byte(opcode::EQUAL, span);
                self.emit_byte(opcode::NOT, span);
                Ok(())
            },
            TokenType::EqualEqual => {
                self.emit_byte(opcode::EQUAL, span);
                Ok(())
            },
            TokenType::Greater => {
                self.emit_byte(opcode::GREATER, span);
                Ok(())
            },
            TokenType::GreaterEqual => {
                self.emit_byte(opcode::LESS, span);
                self.emit_byte(opcode::NOT, span);
                Ok(())
            },
            TokenType::Less => {
                self.emit_byte(opcode::LESS, span);
                Ok(())
            },
            TokenType::LessEqual => {
                self.emit_byte(opcode::GREATER, span);
                self.emit_byte(opcode::NOT, span);
                Ok(())
            },
            TokenType::Plus => {
                self.emit_byte(opcode::ADD, span);
                Ok(())
            },
            TokenType::Minus => {
                self.emit_byte(opcode::SUBTRACT, span);
                Ok(())
            },
            TokenType::Star => {
                self.emit_byte(opcode::MULTIPLY, span);
                Ok(())
            },
            TokenType::Slash => {
                self.emit_byte(opcode::DIVIDE, span);
                Ok(())
            },
            _ => Err((LoxError::unexpected(), span)),
        }
    }

    fn binary(&mut self) -> (r: Result<(), (LoxError, Span)>)
        ensures
            final(self).tokens() == old(self).tokens(),
            agrees(
                r,
                final(self).state(),
                compiled_operator(old(self).tokens(), old(self).state(), Rule::Binary),
            ),
        decreases old(self).left(), 2int,
    {
        let (kind, span, precedence) = match self.parser.prev() {
            None => {
                return Err((LoxError::unexpected(), Span::none()));
            },
            Some(t) => match get_rule(t) {
                Err(e) => {
                    return Err(e);
                },
                Ok(logic) => (t.token_type, t.span, logic.precedence),
            },
        };
        match self.parse_precedence(precedence + 1) {
            Err(e) => {
                return Err(e);
            },
            Ok(()) => {},
        }
        self.binary_code(kind, span)
    }

    fn ternary(&mut self) -> (r: Result<(), (LoxError, Span)>)
        ensures
            final(self).tokens() == old(self).tokens(),
            agrees(
                r,
                final(self).state(),
                compiled_operator(old(self).tokens(), old(self).state(), Rule::Ternary),
            ),
        decreases old(self).left(), 2int,
    {
        let (kind, span) = match self.parser.prev() {
            None => {
                return Err((LoxError::unexpected(), Span::none()));
            },
            Some(t) => (t.token_type, t.span),
        };
        proof {
            lemma_precedence_advances(self.tokens(), self.state(), PREC_TERNARY as int);
        }
        match self.parse_precedence(PREC_TERNARY) {
            Err(e) => {
                return Err(e);
            },
            Ok(()) => {},
        }
        match self.parser.consume(TokenType::Colon, "Expected `:` after expression") {
            Err(e) => {
                return Err(e);
            },
            Ok(()) => {},
        }
        match self.parse_precedence(PREC_TERNARY) {
            Err(e) => {
                return Err(e);
            },
            Ok(()) => {},
        }
        if kind == TokenType::QuestionMark {
            self.emit_byte(opcode::TERNARY_LOGICAL, span);
            Ok(())
        } else {
            Err((LoxError::unexpected(), span))
        }
    }

    /// Compiles what follows the operator that the previous token is, and the operator.
    fn operator(&mut self, rule: Rule) -> (r: Result<(), (LoxError, Span)>)
        ensures
            final(self).tokens() == old(self).tokens(),
            agrees(
                r,
                final(self).state(),
                compiled_operator(old(self).tokens(), old(self).state(), rule),
            ),
        decreases old(self).left(), 3int,
    {
        match rule {
            Rule::Binary => self.binary(),
            Rule::Ternary => self.ternary(),
            _ => {
                let _ = self.parser.prev();
                Err((LoxError::unexpected(), Span::none()))
            },
        }
    }

    fn parse_precedence(&mut self, prec: u8) -> (r: Result<(), (LoxError, Span)>)
        ensures
            final(self).tokens() == old(self).tokens(),
            agrees(
                r,
                final(self).state(),
                compiled_precedence(old(self).tokens(), old(self).state(), prec as int),
            ),
        decreases old(self).left(), 0int,
    {
        let ghost tokens = self.tokens();
        let ghost expected = compiled_precedence(tokens, self.state(), prec as int);
        let _ = self.parser.curr();
        self.parser.advance();
        let rule = match self.parser.prev() {
            None => {
                return Ok(());
            },
            Some(t) => {
                if t.token_type == TokenType::Eof {
                    return Ok(());
                }
                match get_rule(t) {
                    Err(e) => {
                        return Err(e);
                    },
                    Ok(logic) => match logic.prefix {
                        Some(rule) => rule,
                        None => {
                            return Err(
                                (
                                    LoxError::CompilerError(
                                        CompilerError::PrecedenceError(
                                            t.token_type.text().to_owned(),
                                        ),
                                    ),
                                    t.span,
                                ),
                            );
                        },
                    },
                }
            },
        };
        proof {
            lemma_operand_advances(tokens, self.state(), rule);
        }
        match self.operand(rule) {
            Err(e) => {
                return Err(e);
            },
            Ok(()) => {},
        }
        loop
            invariant
                self.tokens() == tokens,
                tokens == old(self).tokens(),
                expected == compiled_precedence(tokens, old(self).state(), prec as int),
                0 <= self.state().pos <= tokens.len() + 1,
                compiled_operators(tokens, self.state(), prec as int) == expected,
                self.left() < old(self).left(),
            decreases self.left(),
        {
            let logic = match self.parser.curr() {
                None => {
                    return Ok(());
                },
                Some(t) => {
                    if t.token_type == TokenType::Eof {
                        return Ok(());
                    }
                    match get_rule(t) {
                        Err(e) => {
                            return Err(e);
                        },
                        Ok(logic) => logic,
                    }
                },
            };
            if prec > logic.precedence {
                return Ok(());
            }
            self.parser.advance();
            let rule = match logic.infix {
                None => {
                    return Ok(());
                },
                Some(rule) => rule,
            };
            proof {
                lemma_operator_advances(tokens, self.state(), rule);
            }
            match self.operator(rule) {
                Err(e) => {
                    return Err(e);
                },
                Ok(()) => {},
            }
        }
    }
}

/// Compiles the expression that `tokens` spell into a chunk that ends with
/// `RETURN`.  String literals are interned in `pool`; if the expression
/// does not compile, `pool` is left as it was.  The chunk has a span for
/// every byte of code and at most 256 constants.
pub fn compile(tokens: Vec<Token>, pool: &mut StringPool) -> (r: Result<
    Chunk,
    Vec<(LoxError, Span)>,
>)
    ensures
        match compiled(views(tokens@), old(pool)@) {
            Ok(st) => r is Ok && r->Ok_0@ == st.chunk && final(pool)@ == st.pool,
            Err(e) => final(pool)@ == old(pool)@ && r is Err && r->Err_0@.len() == 1
                && r->Err_0@[0].0@ == e.0 && r->Err_0@[0].1 == e.1,
        },
        r is Ok ==> r->Ok_0@.code.len() == r->Ok_0@.spans.len() && r->Ok_0@.constants.len()
            <= MAX_CONST_POOL,
{
    let mut compiler = Compiler {
        chunk: Chunk::new(),
        parser: Parser::new(tokens),
        pool: pool.copy(),
    };
    match compiler.expression() {
        Ok(()) => {
            compiler.emit_return();
            let Compiler { chunk, parser, pool: mut used } = compiler;
            std::mem::swap(pool, &mut used);
            let _ = chunk.len();
            Ok(chunk)
        },
        Err(e) => {
            let mut errors: Vec<(LoxError, Span)> = Vec::new();
            errors.push(e);
            Err(errors)
        },
    }
}

} // verus!
