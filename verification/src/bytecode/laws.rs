//! What the compiler and the machine promise each other: the code that the
//! compiler emits consists of whole instructions that the machine knows,
//! and every constant that it loads exists.  On such code the machine never
//! meets a byte that is no instruction, nor an operand without a constant.
use vstd::prelude::*;

use crate::bytecode::chunk::{constant_at, with_constant, written, ChunkView};
use crate::bytecode::compiler::{
    binary_code, compiled, compiled_operand, compiled_operator, compiled_operators,
    compiled_precedence, emit_byte, emit_constant, empty_chunk, literal_code, remaining, Emit,
    Rule, at, rule_for, PREC_ASSIGNMENT, PREC_TERNARY, PREC_UNARY,
};
use crate::bytecode::opcode;
use crate::bytecode::parser::{advanced, consumed, curr_at, prev_at};
use crate::bytecode::vm::{run, step, Machine, Step};
use crate::error::{InternalError, LoxErrorView, OverflowError};
use crate::token::{TokenType, TokenView};

verus! {

/// Whether the machine knows the instruction `op`.
pub open spec fn known(op: u8) -> bool {
    op <= opcode::FALSE
}

/// How many bytes the instruction `op` takes.
pub open spec fn width(op: u8) -> int {
    if op == opcode::CONSTANT {
        2
    } else {
        1
    }
}

/// Whether the code of `c` from `from` on consists of whole, known
/// instructions whose constants exist.
pub open spec fn sound_from(c: ChunkView, from: int) -> bool
    decreases c.code.len() - from,
{
    if from < 0 || from > c.code.len() {
        false
    } else if from == c.code.len() {
        true
    } else {
        known(c.code[from]) && (c.code[from] == opcode::CONSTANT ==> constant_at(c, from + 1)
            is Some) && sound_from(c, from + width(c.code[from]))
    }
}

/// Whether the code of `c` consists of whole, known instructions whose constants exist.
pub open spec fn sound(c: ChunkView) -> bool {
    sound_from(c, 0)
}

proof fn lemma_written(c: ChunkView, from: int, byte: u8, span: crate::token::Span)
    requires
        sound_from(c, from),
        known(byte),
        byte != opcode::CONSTANT,
    ensures
        sound_from(written(c, byte, span), from),
    decreases c.code.len() - from,
{
    let next = written(c, byte, span);
    if from < c.code.len() {
        assert(next.code[from] == c.code[from]);
        if c.code[from] == opcode::CONSTANT {
            assert(next.code[from + 1] == c.code[from + 1]);
        }
        lemma_written(c, from + width(c.code[from]), byte, span);
    } else {
        assert(next.code[from] == byte);
        assert(sound_from(next, from + 1));
    }
}

proof fn lemma_with_constant(c: ChunkView, from: int, word: u64, span: crate::token::Span)
    requires
        sound_from(c, from),
        c.constants.len() < 256,
    ensures
        sound_from(with_constant(c, opcode::CONSTANT, word, span), from),
    decreases c.code.len() - from,
{
    let next = with_constant(c, opcode::CONSTANT, word, span);
    if from < c.code.len() {
        assert(next.code[from] == c.code[from]);
        if c.code[from] == opcode::CONSTANT {
            assert(next.code[from + 1] == c.code[from + 1]);
            assert(next.constants[c.code[from + 1] as int] == c.constants[c.code[from + 1] as int]);
        }
        lemma_with_constant(c, from + width(c.code[from]), word, span);
    } else {
        assert(next.code[from] == opcode::CONSTANT);
        assert(next.code[from + 1] == c.constants.len() as u8);
        assert(constant_at(next, from + 1) is Some);
        assert(sound_from(next, from + 2));
    }
}

proof fn lemma_emit_byte(st: Emit, byte: u8, span: crate::token::Span)
    requires
        sound(st.chunk),
        known(byte),
        byte != opcode::CONSTANT,
    ensures
        sound(emit_byte(st, byte, span).chunk),
{
    lemma_written(st.chunk, 0, byte, span);
}

proof fn lemma_emit_constant(st: Emit, word: u64, span: crate::token::Span)
    requires
        sound(st.chunk),
    ensures
        match emit_constant(st, word, span) {
            Ok(next) => sound(next.chunk),
            Err(_) => true,
        },
{
    if st.chunk.constants.len() < 256 {
        lemma_with_constant(st.chunk, 0, word, span);
    }
}

proof fn lemma_binary_code(st: Emit, t: TokenView)
    requires
        sound(st.chunk),
    ensures
        match binary_code(st, t) {
            Ok(next) => sound(next.chunk),
            Err(_) => true,
        },
{
    let s = t.span;
    lemma_emit_byte(st, opcode::EQUAL, s);
    lemma_emit_byte(emit_byte(st, opcode::EQUAL, s), opcode::NOT, s);
    lemma_emit_byte(st, opcode::GREATER, s);
    lemma_emit_byte(emit_byte(st, opcode::GREATER, s), opcode::NOT, s);
    lemma_emit_byte(st, opcode::LESS, s);
    lemma_emit_byte(emit_byte(st, opcode::LESS, s), opcode::NOT, s);
    lemma_emit_byte(st, opcode::ADD, s);
    lemma_emit_byte(st, opcode::SUBTRACT, s);
    lemma_emit_byte(st, opcode::MULTIPLY, s);
    lemma_emit_byte(st, opcode::DIVIDE, s);
}

proof fn lemma_literal_code(tokens: Seq<TokenView>, st: Emit, rule: Rule)
    requires
        sound(st.chunk),
    ensures
        match literal_code(tokens, st, rule) {
            Ok(next) => sound(next.chunk),
            Err(_) => true,
        },
{
    match prev_at(tokens, st.pos) {
        None => {},
        Some(t) => {
            match t.literal {
                Some(crate::token::LiteralView::Number(bits)) => {
                    lemma_emit_constant(st, bits, t.span);
                },
                Some(crate::token::LiteralView::String(s)) => {
                    let handle = crate::bytecode::object::place_of(st.pool, s);
                    lemma_emit_constant(
                        Emit { pool: crate::bytecode::object::interned(st.pool, s), ..st },
                        ((handle as u64) & crate::bytecode::value::HANDLE_MASK)
                            | crate::bytecode::value::OBJECT_TAG,
                        t.span,
                    );
                },
                _ => {},
            }
            lemma_emit_constant(st, crate::bytecode::value::TRUE_BITS, t.span);
            lemma_emit_constant(st, crate::bytecode::value::FALSE_BITS, t.span);
            lemma_emit_constant(st, crate::bytecode::value::NIL_BITS, t.span);
        },
    }
}

proof fn lemma_precedence_sound(tokens: Seq<TokenView>, st: Emit, prec: int)
    requires
        sound(st.chunk),
    ensures
        match compiled_precedence(tokens, st, prec) {
            Ok(next) => sound(next.chunk),
            Err(_) => true,
        },
    decreases remaining(tokens, st.pos), 0int,
{
    let st1 = at(st, advanced(tokens, st.pos));
    match prev_at(tokens, st1.pos) {
        None => {},
        Some(t) => if t.token_type != TokenType::Eof {
            match rule_for(t) {
                Err(e) => {},
                Ok(logic) => match logic.prefix {
                    None => {},
                    Some(rule) => {
                        lemma_operand_sound(tokens, st1, rule);
                        match compiled_operand(tokens, st1, rule) {
                            Err(e) => {},
                            Ok(st2) => if !(st2.pos <= st.pos || st2.pos > tokens.len() + 1) {
                                lemma_operators_sound(tokens, st2, prec);
                            },
                        }
                    },
                },
            }
        },
    }
}

proof fn lemma_operand_sound(tokens: Seq<TokenView>, st: Emit, rule: Rule)
    requires
        sound(st.chunk),
    ensures
        match compiled_operand(tokens, st, rule) {
            Ok(next) => sound(next.chunk),
            Err(_) => true,
        },
    decreases remaining(tokens, st.pos), 1int,
{
    match rule {
        Rule::Number | Rule::String | Rule::Literal => {
            lemma_literal_code(tokens, st, rule);
        },
        Rule::Grouping => {
            lemma_precedence_sound(tokens, st, PREC_ASSIGNMENT as int);
        },
        Rule::Unary => {
            lemma_precedence_sound(tokens, st, PREC_UNARY as int);
            match compiled_precedence(tokens, st, PREC_UNARY as int) {
                Err(e) => {},
                Ok(st2) => match prev_at(tokens, st.pos) {
                    Some(t) => {
                        lemma_emit_byte(st2, opcode::NEGATE, t.span);
                        lemma_emit_byte(st2, opcode::NOT, t.span);
                    },
                    None => {},
                },
            }
        },
        _ => {},
    }
}

proof fn lemma_operators_sound(tokens: Seq<TokenView>, st: Emit, prec: int)
    requires
        sound(st.chunk),
    ensures
        match compiled_operators(tokens, st, prec) {
            Ok(next) => sound(next.chunk),
            Err(_) => true,
        },
    decreases remaining(tokens, st.pos), 2int,
{
    match curr_at(tokens, st.pos) {
        None => {},
        Some(t) => if t.token_type != TokenType::Eof {
            match rule_for(t) {
                Err(e) => {},
                Ok(logic) => if prec <= logic.precedence {
                    let st1 = at(st, st.pos + 1);
                    match logic.infix {
                        None => {},
                        Some(rule) => {
                            lemma_operator_sound(tokens, st1, rule);
                            match compiled_operator(tokens, st1, rule) {
                                Err(e) => {},
                                Ok(st2) => if !(st2.pos <= st.pos || st2.pos > tokens.len() + 1) {
                                    lemma_operators_sound(tokens, st2, prec);
                                },
                            }
                        },
                    }
                },
            }
        },
    }
}

proof fn lemma_operator_sound(tokens: Seq<TokenView>, st: Emit, rule: Rule)
    requires
        sound(st.chunk),
    ensures
        match compiled_operator(tokens, st, rule) {
            Ok(next) => sound(next.chunk),
            Err(_) => true,
        },
    decreases remaining(tokens, st.pos), 1int,
{
    match prev_at(tokens, st.pos) {
        None => {},
        Some(t) => match rule {
            Rule::Binary => match rule_for(t) {
                Err(e) => {},
                Ok(logic) => {
                    lemma_precedence_sound(tokens, st, logic.precedence + 1);
                    match compiled_precedence(tokens, st, logic.precedence + 1) {
                        Err(e) => {},
                        Ok(st2) => {
                            lemma_binary_code(st2, t);
                        },
                    }
                },
            },
            Rule::Ternary => {
                lemma_precedence_sound(tokens, st, PREC_TERNARY as int);
                match compiled_precedence(tokens, st, PREC_TERNARY as int) {
                    Err(e) => {},
                    Ok(st2) => match consumed(
                        tokens,
                        st2.pos,
                        TokenType::Colon,
                        "Expected `:` after expression"@,
                    ) {
                        Err(e) => {},
                        Ok(pos) => if !(pos < st.pos || pos > tokens.len() + 1) {
                            lemma_precedence_sound(tokens, at(st2, pos), PREC_TERNARY as int);
                            match compiled_precedence(
                                tokens,
                                at(st2, pos),
                                PREC_TERNARY as int,
                            ) {
                                Err(e) => {},
                                Ok(st4) => {
                                    lemma_emit_byte(st4, opcode::TERNARY_LOGICAL, t.span);
                                },
                            }
                        },
                    },
                }
            },
            _ => {},
        },
    }
}

/// What the compiler emits is sound: whole instructions that the machine
/// knows, each constant operand naming a constant that exists.
pub proof fn lemma_compiled_is_sound(tokens: Seq<TokenView>, pool: Seq<Seq<char>>)
    ensures
        match compiled(tokens, pool) {
            Ok(st) => sound(st.chunk),
            Err(_) => true,
        },
{
    let start = Emit { pos: 0, chunk: empty_chunk(), pool };
    assert(sound(start.chunk));
    lemma_precedence_sound(tokens, start, PREC_ASSIGNMENT as int);
    match compiled_precedence(tokens, start, PREC_ASSIGNMENT as int) {
        Err(e) => {},
        Ok(st) => {
            lemma_emit_byte(st, opcode::RETURN, crate::token::no_span());
        },
    }
}

/// An error that comes from the code and not from the values.
pub open spec fn code_error(e: LoxErrorView) -> bool {
    (e matches LoxErrorView::InternalError(InternalError::UnknownOperation(_))) || e
        == LoxErrorView::OverflowError(OverflowError::IndexOverflow(256))
}

/// On sound code, an instruction fails only for the values it finds: it
/// is a known instruction, and if it loads a constant, the constant exists.
pub proof fn lemma_step_on_sound_code(m: Machine)
    requires
        sound_from(m.chunk, m.ip),
    ensures
        match step(m) {
            Step::Continue(next) => sound_from(next.chunk, next.ip),
            Step::Pause(next, _) => sound_from(next.chunk, next.ip),
            Step::Fail(e) => !code_error(e),
        },
{
}

/// On sound code, a run fails only for the values it finds, never for the code.
pub proof fn lemma_run_on_sound_code(m: Machine)
    requires
        sound_from(m.chunk, m.ip),
    ensures
        sound_from(run(m).machine.chunk, run(m).machine.ip),
        match run(m).result {
            Ok(_) => true,
            Err(e) => !code_error(e),
        },
    decreases m.chunk.code.len() - m.ip,
{
    lemma_step_on_sound_code(m);
    crate::bytecode::vm::lemma_step_advances(m);
    match step(m) {
        Step::Continue(next) => {
            lemma_run_on_sound_code(next);
        },
        _ => {},
    }
}

} // verus!
