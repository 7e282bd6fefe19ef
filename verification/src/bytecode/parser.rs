//! The compiler's window on the token stream: the current token and the one before it.
use vstd::prelude::*;

use crate::error::{InternalError, LoxError, LoxErrorView, SyntaxError, SyntaxErrorView};
use crate::scanner::views;
use crate::token::{no_span, Span, Token, TokenType, TokenView};

verus! {

/// A position in a token stream.  After the last token there are two more
/// positions: one at which only the previous token exists, and one at which
/// neither the current nor the previous token does.
pub struct Parser {
    tokens: Vec<Token>,
    pos: usize,
    /// Set once the position after the last token has been left.
    past: bool,
}

/// The token at `pos`.
pub open spec fn curr_at(tokens: Seq<TokenView>, pos: int) -> Option<TokenView> {
    if 0 <= pos < tokens.len() {
        Some(tokens[pos])
    } else {
        None
    }
}

/// The token before `pos`.
pub open spec fn prev_at(tokens: Seq<TokenView>, pos: int) -> Option<TokenView> {
    curr_at(tokens, pos - 1)
}

/// The position after `pos`.
pub open spec fn advanced(tokens: Seq<TokenView>, pos: int) -> int {
    if pos <= tokens.len() {
        pos + 1
    } else {
        pos
    }
}

/// What `consume` does at `pos`: the next position, or the error.
pub open spec fn consumed(tokens: Seq<TokenView>, pos: int, wanted: TokenType, err: Seq<char>)
    -> Result<int, (LoxErrorView, Span)> {
    match curr_at(tokens, pos) {
        Some(t) => if t.token_type == wanted {
            Ok(advanced(tokens, pos))
        } else {
            Err((LoxErrorView::SyntaxError(SyntaxErrorView::UnexpectedValue(err)), t.span))
        },
        None => Err((LoxErrorView::InternalError(InternalError::UnexpectedCodePath), no_span())),
    }
}

impl Parser {
    /// The tokens.
    pub closed spec fn tokens(&self) -> Seq<TokenView> {
        views(self.tokens@)
    }

    /// The position.
    pub closed spec fn pos(&self) -> int {
        if self.past {
            self.pos + 1
        } else {
            self.pos as int
        }
    }

    #[verifier::type_invariant]
    spec fn wf(&self) -> bool {
        self.pos <= self.tokens@.len() && (self.past ==> self.pos == self.tokens@.len())
    }

    /// A parser before the first of `tokens`.
    pub fn new(tokens: Vec<Token>) -> (p: Parser)
        ensures
            p.tokens() == views(tokens@),
            p.pos() == 0,
    {
        Parser { tokens, pos: 0, past: false }
    }

    /// The current token.
    pub fn curr(&self) -> (r: Option<&Token>)
        ensures
            0 <= self.pos() <= self.tokens().len() + 1,
            match r {
                Some(t) => curr_at(self.tokens(), self.pos()) == Some(t@),
                None => curr_at(self.tokens(), self.pos()) is None,
            },
    {
        proof {
            use_type_invariant(self);
        }
        if !self.past && self.pos < self.tokens.len() {
            Some(&self.tokens[self.pos])
        } else {
            None
        }
    }

    /// The token before the current one.
    pub fn prev(&self) -> (r: Option<&Token>)
        ensures
            0 <= self.pos() <= self.tokens().len() + 1,
            match r {
                Some(t) => prev_at(self.tokens(), self.pos()) == Some(t@),
                None => prev_at(self.tokens(), self.pos()) is None,
            },
    {
        proof {
            use_type_invariant(self);
        }
        if !self.past && 0 < self.pos {
            Some(&self.tokens[self.pos - 1])
        } else {
            None
        }
    }

    /// Makes the current token the previous one.
    pub fn advance(&mut self)
        ensures
            final(self).tokens() == old(self).tokens(),
            final(self).pos() == advanced(old(self).tokens(), old(self).pos()),
    {
        proof {
            use_type_invariant(&*self);
        }
        if self.pos < self.tokens.len() {
            self.pos = self.pos + 1;
        } else {
            self.past = true;
        }
    }

    /// Steps over the current token if it is of kind `token`, and fails with `err` otherwise.
    pub fn consume(&mut self, token: TokenType, err: &str) -> (r: Result<(), (LoxError, Span)>)
        ensures
            final(self).tokens() == old(self).tokens(),
            match consumed(old(self).tokens(), old(self).pos(), token, err@) {
                Ok(pos) => r is Ok && final(self).pos() == pos,
                Err(e) => r is Err && final(self).pos() == old(self).pos() && r->Err_0.0@ == e.0
                    && r->Err_0.1 == e.1,
            },
    {
        let (matches, span) = match self.curr() {
            Some(t) => (t.token_type == token, Some(t.span)),
            None => (false, None),
        };
        if matches {
            self.advance();
            return Ok(());
        }
        match span {
            Some(span) => Err(
                (LoxError::SyntaxError(SyntaxError::UnexpectedValue(err.to_owned())), span),
            ),
            None => Err((LoxError::unexpected(), Span::none())),
        }
    }
}

} // verus!
