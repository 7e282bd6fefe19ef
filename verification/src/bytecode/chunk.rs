//! A chunk of bytecode: the instruction bytes, each with the span of source
//! that it came from, and a pool of at most 256 constants.
use arrayvec::ArrayVec;
use vstd::prelude::*;

use crate::bytecode::slots::{items, slots_get, slots_len, slots_new, slots_try_push};
use crate::bytecode::value::Value;
use crate::error::{LoxError, LoxErrorView, OverflowError};
use crate::token::Span;

verus! {

/// The most constants that a chunk can hold: one byte addresses them.
pub const MAX_CONST_POOL: usize = 256;

/// One byte of code and where it came from.
#[derive(Clone, Copy, Debug)]
pub struct Cell {
    pub byte: u8,
    pub span: Span,
}

/// Bytecode with its constants.
pub struct Chunk {
    cells: Vec<Cell>,
    constants: ArrayVec<u64, 256>,
}

/// A [`Chunk`] as contracts see it.  `code` and `spans` have the same length.
pub struct ChunkView {
    pub code: Seq<u8>,
    pub spans: Seq<Span>,
    pub constants: Seq<u64>,
}

impl View for Chunk {
    type V = ChunkView;

    closed spec fn view(&self) -> ChunkView {
        ChunkView {
            code: Seq::new(self.cells@.len(), |i: int| self.cells@[i].byte),
            spans: Seq::new(self.cells@.len(), |i: int| self.cells@[i].span),
            constants: items(self.constants),
        }
    }
}

/// `c` with one more byte of code.
pub open spec fn written(c: ChunkView, byte: u8, span: Span) -> ChunkView {
    ChunkView { code: c.code.push(byte), spans: c.spans.push(span), constants: c.constants }
}

/// `c` with one more constant and the two bytes that load it.
pub open spec fn with_constant(c: ChunkView, opcode: u8, word: u64, span: Span) -> ChunkView {
    ChunkView {
        code: c.code.push(opcode).push(c.constants.len() as u8),
        spans: c.spans.push(span).push(span),
        constants: c.constants.push(word),
    }
}

impl Chunk {
    /// A chunk without code or constants.
    pub fn new() -> (c: Chunk)
        ensures
            c@.code == Seq::<u8>::empty(),
            c@.spans == Seq::<Span>::empty(),
            c@.constants == Seq::<u64>::empty(),
    {
        let c = Chunk { cells: Vec::new(), constants: slots_new() };
        assert(c@.code =~= Seq::<u8>::empty());
        assert(c@.spans =~= Seq::<Span>::empty());
        c
    }

    /// The number of bytes of code.  There is one span for each, and the
    /// constants are never more than 256.
    pub fn len(&self) -> (n: usize)
        ensures
            n == self@.code.len(),
            self@.code.len() == self@.spans.len(),
            self@.constants.len() <= MAX_CONST_POOL,
    {
        let _ = slots_len(&self.constants);
        self.cells.len()
    }

    /// The `i`-th byte of code.
    pub fn byte(&self, i: usize) -> (b: u8)
        requires
            i < self@.code.len(),
        ensures
            b == self@.code[i as int],
    {
        self.cells[i].byte
    }

    /// The span of the `i`-th byte of code.
    pub fn span(&self, i: usize) -> (s: Span)
        requires
            i < self@.spans.len(),
        ensures
            s == self@.spans[i as int],
    {
        self.cells[i].span
    }

    /// The number of constants.
    pub fn constants_len(&self) -> (n: usize)
        ensures
            n == self@.constants.len(),
            n <= MAX_CONST_POOL,
    {
        slots_len(&self.constants)
    }

    /// Appends one byte of code.
    pub fn write_chunk(&mut self, opcode: u8, span: Span)
        ensures
            final(self)@ == written(old(self)@, opcode, span),
    {
        self.cells.push(Cell { byte: opcode, span });
        assert(self@.code =~= old(self)@.code.push(opcode));
        assert(self@.spans =~= old(self)@.spans.push(span));
    }

    /// Adds `val` to the constants and returns its index.  Fails if there are 256 already.
    pub fn write_constant(&mut self, val: Value) -> (r: Result<u8, LoxError>)
        ensures
            final(self)@.code == old(self)@.code,
            final(self)@.spans == old(self)@.spans,
            old(self)@.constants.len() < MAX_CONST_POOL ==> r == Ok::<u8, LoxError>(
                old(self)@.constants.len() as u8,
            ) && final(self)@.constants == old(self)@.constants.push(val.0),
            old(self)@.constants.len() >= MAX_CONST_POOL ==> final(self)@ == old(self)@ && r is Err
                && r->Err_0@ == LoxErrorView::OverflowError(
                OverflowError::ExceedsConstSize(MAX_CONST_POOL),
            ),
    {
        let n = slots_len(&self.constants);
        match slots_try_push(&mut self.constants, val.0) {
            Ok(()) => Ok(n as u8),
            Err(_) => Err(LoxError::OverflowError(OverflowError::ExceedsConstSize(MAX_CONST_POOL))),
        }
    }

    /// Adds `val` to the constants and appends `opcode` and the index of
    /// `val`.  Fails, and changes nothing, if there are 256 constants already.
    pub fn add_constant(&mut self, opcode: u8, val: Value, span: &Span) -> (r: Result<
        (),
        (LoxError, Span),
    >)
        ensures
            old(self)@.constants.len() < MAX_CONST_POOL ==> r is Ok && final(self)@
                == with_constant(old(self)@, opcode, val.0, *span),
            old(self)@.constants.len() >= MAX_CONST_POOL ==> final(self)@ == old(self)@ && r is Err
                && r->Err_0.0@ == LoxErrorView::OverflowError(
                OverflowError::ExceedsConstSize(MAX_CONST_POOL),
            ) && r->Err_0.1 == *span,
    {
        match self.write_constant(val) {
            Ok(idx) => {
                self.write_chunk(opcode, *span);
                self.write_chunk(idx, *span);
                Ok(())
            },
            Err(e) => Err((e, *span)),
        }
    }

    /// The constant that the operand byte at `idx` names.  Fails if there is
    /// no byte at `idx` or no constant of that index.
    pub fn read_const(&self, idx: usize) -> (r: Result<Value, LoxError>)
        ensures
            match constant_at(self@, idx as int) {
                Some(word) => r == Ok::<Value, LoxError>(Value(word)),
                None => r is Err && r->Err_0@ == LoxErrorView::OverflowError(
                    OverflowError::IndexOverflow(MAX_CONST_POOL),
                ),
            },
    {
        if idx < self.cells.len() {
            let k = self.cells[idx].byte as usize;
            if k < slots_len(&self.constants) {
                return Ok(Value(slots_get(&self.constants, k)));
            }
        }
        Err(LoxError::OverflowError(OverflowError::IndexOverflow(MAX_CONST_POOL)))
    }
}

/// The constant that the operand byte at `idx` names, if both exist.
pub open spec fn constant_at(c: ChunkView, idx: int) -> Option<u64> {
    if 0 <= idx < c.code.len() && (c.code[idx] as int) < c.constants.len() {
        Some(c.constants[c.code[idx] as int])
    } else {
        None
    }
}

} // verus!
