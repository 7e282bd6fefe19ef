//! The scanner: source text to tokens.
//!
//! What the scanner does is stated by [`piece_at`], which says for every
//! position of a source what lexical element starts there and where it ends,
//! and by [`lex_from`], which strings the elements together.  [`Scanner`]
//! computes exactly that.
use vstd::prelude::*;

use crate::error::{scanner_message, LoxErr, LoxErrView, ScannerError, ScannerErrorView};
use crate::text::{chars_of, string_of};
use crate::token::{Literal, LiteralView, Span, Token, TokenType, TokenView};

verus! {

/// The classes of character that a run can consist of.
#[derive(Clone, Copy, PartialEq, Eq, Structural)]
pub enum CharClass {
    /// `0` to `9`.
    Digit,
    /// A letter of ASCII, a digit, or `_`.
    Word,
    /// Anything but a line feed.
    LineRest,
    /// Anything but a line feed or a double quote.
    StringBody,
}

/// A decimal digit.
pub open spec fn is_digit(c: char) -> bool {
    '0' <= c <= '9'
}

/// A letter of the Latin alphabet or an underscore.
pub open spec fn is_alpha(c: char) -> bool {
    ('a' <= c <= 'z') || ('A' <= c <= 'Z') || c == '_'
}

/// Space, tab, carriage return, line feed, form feed.
pub open spec fn is_space(c: char) -> bool {
    c == ' ' || c == '\t' || c == '\r' || c == '\n' || c == '\x0c'
}

/// Whether `c` belongs to `class`.
pub open spec fn in_class(class: CharClass, c: char) -> bool {
    match class {
        CharClass::Digit => is_digit(c),
        CharClass::Word => is_alpha(c) || is_digit(c),
        CharClass::LineRest => c != '\n',
        CharClass::StringBody => c != '\n' && c != '"',
    }
}

/// The end of the longest run of `class` characters that starts at `pos`.
pub open spec fn run_end(src: Seq<char>, pos: int, class: CharClass) -> int
    decreases src.len() - pos,
{
    if 0 <= pos < src.len() && in_class(class, src[pos]) {
        run_end(src, pos + 1, class)
    } else {
        pos
    }
}

/// The position just after the first `*/` at or after `pos`, if there is one.
pub open spec fn comment_end(src: Seq<char>, pos: int) -> Option<int>
    decreases src.len() - pos,
{
    if pos < 0 || pos + 1 >= src.len() {
        None
    } else if src[pos] == '*' && src[pos + 1] == '/' {
        Some(pos + 2)
    } else {
        comment_end(src, pos + 1)
    }
}

/// The end of the number literal that starts at `start`: digits, then
/// optionally a dot and more digits, the dot only if a digit follows it.
pub open spec fn number_end(src: Seq<char>, start: int) -> int {
    let whole = run_end(src, start, CharClass::Digit);
    if whole + 1 < src.len() && src[whole] == '.' && is_digit(src[whole + 1]) {
        run_end(src, whole + 1, CharClass::Digit)
    } else {
        whole
    }
}

/// The keyword that `word` is, if it is one.
pub open spec fn keyword(word: Seq<char>) -> Option<TokenType> {
    if word == "and"@ {
        Some(TokenType::And)
    } else if word == "class"@ {
        Some(TokenType::Class)
    } else if word == "else"@ {
        Some(TokenType::Else)
    } else if word == "false"@ {
        Some(TokenType::False)
    } else if word == "for"@ {
        Some(TokenType::For)
    } else if word == "fun"@ {
        Some(TokenType::Fun)
    } else if word == "if"@ {
        Some(TokenType::If)
    } else if word == "nil"@ {
        Some(TokenType::Nil)
    } else if word == "or"@ {
        Some(TokenType::Or)
    } else if word == "print"@ {
        Some(TokenType::Print)
    } else if word == "return"@ {
        Some(TokenType::Return)
    } else if word == "super"@ {
        Some(TokenType::Super)
    } else if word == "this"@ {
        Some(TokenType::This)
    } else if word == "true"@ {
        Some(TokenType::True)
    } else if word == "var"@ {
        Some(TokenType::Var)
    } else if word == "while"@ {
        Some(TokenType::While)
    } else {
        None
    }
}

/// The token that a single character is, if it is one by itself.
pub open spec fn punctuation(c: char) -> Option<TokenType> {
    if c == '(' {
        Some(TokenType::LeftParen)
    } else if c == ')' {
        Some(TokenType::RightParen)
    } else if c == '{' {
        Some(TokenType::LeftBrace)
    } else if c == '}' {
        Some(TokenType::RightBrace)
    } else if c == ',' {
        Some(TokenType::Comma)
    } else if c == '.' {
        Some(TokenType::Dot)
    } else if c == '-' {
        Some(TokenType::Minus)
    } else if c == '+' {
        Some(TokenType::Plus)
    } else if c == ';' {
        Some(TokenType::SemiColon)
    } else if c == '*' {
        Some(TokenType::Star)
    } else if c == '?' {
        Some(TokenType::QuestionMark)
    } else if c == ':' {
        Some(TokenType::Colon)
    } else {
        None
    }
}

/// An operator that `=` can extend: the token it is alone, and the one it is before `=`.
pub struct Operator {
    pub alone: TokenType,
    pub extended: TokenType,
}

/// The operator that `c` starts, if it starts one.
pub open spec fn operator(c: char) -> Option<Operator> {
    if c == '!' {
        Some(Operator { alone: TokenType::Bang, extended: TokenType::BangEqual })
    } else if c == '=' {
        Some(Operator { alone: TokenType::Equal, extended: TokenType::EqualEqual })
    } else if c == '<' {
        Some(Operator { alone: TokenType::Less, extended: TokenType::LessEqual })
    } else if c == '>' {
        Some(Operator { alone: TokenType::Greater, extended: TokenType::GreaterEqual })
    } else {
        None
    }
}

/// What one lexical element is.
pub enum Lexed {
    /// White space or a comment.
    Skip,
    /// A token of this kind, with this payload.
    Token { token_type: TokenType, literal: Option<LiteralView> },
    /// Text that is no token.
    Error(ScannerErrorView),
}

/// One lexical element: what it is and where it ends.
pub struct Piece {
    pub end: int,
    pub lexed: Lexed,
}

/// A token without payload that ends at `end`.
pub open spec fn plain(end: int, token_type: TokenType) -> Piece {
    Piece { end, lexed: Lexed::Token { token_type, literal: None } }
}

/// The lexical element that starts at `start`, for `0 <= start < src.len()`.
pub open spec fn piece_at(src: Seq<char>, start: int) -> Piece {
    let c = src[start];
    let followed = start + 1 < src.len();
    if is_space(c) {
        Piece { end: start + 1, lexed: Lexed::Skip }
    } else if punctuation(c) is Some {
        plain(start + 1, punctuation(c)->0)
    } else if operator(c) is Some {
        if followed && src[start + 1] == '=' {
            plain(start + 2, operator(c)->0.extended)
        } else {
            plain(start + 1, operator(c)->0.alone)
        }
    } else if c == '/' {
        if followed && src[start + 1] == '/' {
            Piece { end: run_end(src, start + 2, CharClass::LineRest), lexed: Lexed::Skip }
        } else if followed && src[start + 1] == '*' {
            match comment_end(src, start + 2) {
                Some(end) => Piece { end, lexed: Lexed::Skip },
                None => Piece {
                    end: src.len() as int,
                    lexed: Lexed::Error(ScannerErrorView::MalformedComment),
                },
            }
        } else {
            plain(start + 1, TokenType::Slash)
        }
    } else if c == '"' {
        let close = run_end(src, start + 1, CharClass::StringBody);
        if close < src.len() && src[close] == '"' {
            Piece {
                end: close + 1,
                lexed: Lexed::Token {
                    token_type: TokenType::String,
                    literal: Some(LiteralView::String(src.subrange(start + 1, close))),
                },
            }
        } else {
            Piece {
                end: close,
                lexed: Lexed::Error(
                    ScannerErrorView::MalformedString(src.subrange(start, close)),
                ),
            }
        }
    } else if is_digit(c) {
        let end = number_end(src, start);
        Piece {
            end,
            lexed: Lexed::Token {
                token_type: TokenType::Number,
                literal: Some(LiteralView::String(src.subrange(start, end))),
            },
        }
    } else if is_alpha(c) {
        let end = run_end(src, start, CharClass::Word);
        let word = src.subrange(start, end);
        match keyword(word) {
            Some(token_type) => plain(end, token_type),
            None => Piece {
                end,
                lexed: Lexed::Token {
                    token_type: TokenType::Identifier,
                    literal: Some(LiteralView::String(word)),
                },
            },
        }
    } else {
        Piece {
            end: start + 1,
            lexed: Lexed::Error(ScannerErrorView::UnrecognizedInput("Unrecognized input"@)),
        }
    }
}

/// How many bytes the UTF-8 form of `c` takes.
pub open spec fn utf8_width(c: char) -> int {
    if (c as u32) < 0x80 {
        1
    } else if (c as u32) < 0x800 {
        2
    } else if (c as u32) < 0x1_0000 {
        3
    } else {
        4
    }
}

/// The byte at which character `pos` starts in the UTF-8 form of `src`.
pub open spec fn byte_offset(src: Seq<char>, pos: int) -> int
    decreases pos,
{
    if pos <= 0 {
        0
    } else {
        byte_offset(src, pos - 1) + utf8_width(src[pos - 1])
    }
}

/// The line of position `pos`, counted from 1.
pub open spec fn line_of(src: Seq<char>, pos: int) -> int
    decreases pos,
{
    if pos <= 0 {
        1
    } else if src[pos - 1] == '\n' {
        line_of(src, pos - 1) + 1
    } else {
        line_of(src, pos - 1)
    }
}

/// The position at which the line of `pos` starts.
pub open spec fn line_start(src: Seq<char>, pos: int) -> int
    decreases pos,
{
    if pos <= 0 {
        0
    } else if src[pos - 1] == '\n' {
        pos
    } else {
        line_start(src, pos - 1)
    }
}

/// The column of position `pos`, counted from 1.
pub open spec fn column_of(src: Seq<char>, pos: int) -> int {
    1 + pos - line_start(src, pos)
}

/// The bytes that the characters `start..end` occupy.
pub open spec fn span_of(src: Seq<char>, start: int, end: int) -> Span {
    Span { start: byte_offset(src, start) as usize, end: byte_offset(src, end) as usize }
}

/// A token of the given kind and payload that occupies `start..end`.
pub open spec fn token_at(
    src: Seq<char>,
    start: int,
    end: int,
    token_type: TokenType,
    literal: Option<LiteralView>,
) -> TokenView {
    TokenView {
        token_type,
        line: line_of(src, start) as usize,
        column: column_of(src, start) as usize,
        literal,
        span: span_of(src, start, end),
    }
}

/// What a scan yields: the tokens and the errors, each in source order.
pub struct Lexing {
    pub tokens: Seq<TokenView>,
    pub errors: Seq<(ScannerErrorView, Span)>,
}

/// `lexing` after the element `piece` that starts at `start`.
pub open spec fn lexing_push(src: Seq<char>, lexing: Lexing, start: int, piece: Piece) -> Lexing {
    match piece.lexed {
        Lexed::Skip => lexing,
        Lexed::Token { token_type, literal } => Lexing {
            tokens: lexing.tokens.push(token_at(src, start, piece.end, token_type, literal)),
            errors: lexing.errors,
        },
        Lexed::Error(e) => Lexing {
            tokens: lexing.tokens,
            errors: lexing.errors.push((e, span_of(src, start, piece.end))),
        },
    }
}

/// `lexing` after all the elements of `src` from `start` on.
pub open spec fn lex_from(src: Seq<char>, start: int, lexing: Lexing) -> Lexing
    decreases src.len() - start,
{
    if start < 0 || start >= src.len() {
        lexing
    } else {
        let piece = piece_at(src, start);
        if piece.end <= start || piece.end > src.len() {
            lexing
        } else {
            lex_from(src, piece.end, lexing_push(src, lexing, start, piece))
        }
    }
}

/// The tokens and errors of the whole of `src`, without the closing `Eof`.
pub open spec fn lex(src: Seq<char>) -> Lexing {
    lex_from(src, 0, Lexing { tokens: Seq::empty(), errors: Seq::empty() })
}

/// The `Eof` token that closes the tokens of `src`.
pub open spec fn eof_token(src: Seq<char>) -> TokenView {
    token_at(src, src.len() as int, src.len() as int, TokenType::Eof, None)
}

/// Every run ends at or after its start, and within the source.
pub proof fn lemma_run_end(src: Seq<char>, pos: int, class: CharClass)
    requires
        0 <= pos <= src.len(),
    ensures
        pos <= run_end(src, pos, class) <= src.len(),
        forall|i: int| pos <= i < run_end(src, pos, class) ==> in_class(class, #[trigger] src[i]),
        run_end(src, pos, class) < src.len() ==> !in_class(
            class,
            src[run_end(src, pos, class)],
        ),
    decreases src.len() - pos,
{
    if pos < src.len() && in_class(class, src[pos]) {
        lemma_run_end(src, pos + 1, class);
    }
}

proof fn lemma_comment_end(src: Seq<char>, pos: int)
    requires
        0 <= pos <= src.len(),
    ensures
        match comment_end(src, pos) {
            Some(end) => pos + 2 <= end <= src.len(),
            None => true,
        },
    decreases src.len() - pos,
{
    if pos + 1 < src.len() && !(src[pos] == '*' && src[pos + 1] == '/') {
        lemma_comment_end(src, pos + 1);
    }
}

/// Every lexical element is at least one character long and ends within the source.
pub proof fn lemma_piece_advances(src: Seq<char>, start: int)
    requires
        0 <= start < src.len(),
    ensures
        start < piece_at(src, start).end <= src.len(),
{
    lemma_run_end(src, start + 1, CharClass::StringBody);
    lemma_run_end(src, start, CharClass::Word);
    lemma_run_end(src, start, CharClass::Digit);
    let whole = run_end(src, start, CharClass::Digit);
    if whole + 1 < src.len() {
        lemma_run_end(src, whole + 1, CharClass::Digit);
    }
    if start + 1 < src.len() {
        lemma_run_end(src, start + 2, CharClass::LineRest);
        lemma_comment_end(src, start + 2);
    }
}


proof fn lemma_positions(src: Seq<char>, pos: int)
    requires
        0 <= pos <= src.len(),
    ensures
        0 <= byte_offset(src, pos) <= 4 * pos,
        1 <= line_of(src, pos) <= pos + 1,
        0 <= line_start(src, pos) <= pos,
    decreases pos,
{
    if pos > 0 {
        lemma_positions(src, pos - 1);
    }
}

/// Whether `c` belongs to `class`.
pub fn char_in_class(class: CharClass, c: char) -> (r: bool)
    ensures
        r == in_class(class, c),
{
    let u: u32 = c as u32;
    match class {
        CharClass::Digit => 48 <= u && u <= 57,
        CharClass::Word => (97 <= u && u <= 122) || (65 <= u && u <= 90) || u == 95 || (48 <= u
            && u <= 57),
        CharClass::LineRest => u != 10,
        CharClass::StringBody => u != 10 && u != 34,
    }
}

fn char_is_alpha(c: char) -> (r: bool)
    ensures
        r == is_alpha(c),
{
    let u: u32 = c as u32;
    (97 <= u && u <= 122) || (65 <= u && u <= 90) || u == 95
}

fn char_is_space(c: char) -> (r: bool)
    ensures
        r == is_space(c),
{
    let u: u32 = c as u32;
    u == 32 || u == 9 || u == 13 || u == 10 || u == 12
}

fn char_width(c: char) -> (r: usize)
    ensures
        r == utf8_width(c),
{
    let u: u32 = c as u32;
    if u < 0x80 {
        1
    } else if u < 0x800 {
        2
    } else if u < 0x1_0000 {
        3
    } else {
        4
    }
}

fn char_punctuation(c: char) -> (r: Option<TokenType>)
    ensures
        r == punctuation(c),
{
    if c == '(' {
        Some(TokenType::LeftParen)
    } else if c == ')' {
        Some(TokenType::RightParen)
    } else if c == '{' {
        Some(TokenType::LeftBrace)
    } else if c == '}' {
        Some(TokenType::RightBrace)
    } else if c == ',' {
        Some(TokenType::Comma)
    } else if c == '.' {
        Some(TokenType::Dot)
    } else if c == '-' {
        Some(TokenType::Minus)
    } else if c == '+' {
        Some(TokenType::Plus)
    } else if c == ';' {
        Some(TokenType::SemiColon)
    } else if c == '*' {
        Some(TokenType::Star)
    } else if c == '?' {
        Some(TokenType::QuestionMark)
    } else if c == ':' {
        Some(TokenType::Colon)
    } else {
        None
    }
}

fn char_operator(c: char) -> (r: Option<Operator>)
    ensures
        r == operator(c),
{
    if c == '!' {
        Some(Operator { alone: TokenType::Bang, extended: TokenType::BangEqual })
    } else if c == '=' {
        Some(Operator { alone: TokenType::Equal, extended: TokenType::EqualEqual })
    } else if c == '<' {
        Some(Operator { alone: TokenType::Less, extended: TokenType::LessEqual })
    } else if c == '>' {
        Some(Operator { alone: TokenType::Greater, extended: TokenType::GreaterEqual })
    } else {
        None
    }
}

/// A place in a source: the character, its line and column, and its byte.
#[derive(Clone, Copy)]
pub struct Mark {
    pub pos: usize,
    pub line: usize,
    pub column: usize,
    pub offset: usize,
}

/// The place of character `pos` of `src`.
pub open spec fn mark_at(src: Seq<char>, pos: int) -> Mark {
    Mark {
        pos: pos as usize,
        line: line_of(src, pos) as usize,
        column: column_of(src, pos) as usize,
        offset: byte_offset(src, pos) as usize,
    }
}

/// A source and a position in it, with the line and byte of that position kept up to date.
pub struct Cursor {
    chars: Vec<char>,
    current: usize,
    line: usize,
    line_start: usize,
    offset: usize,
}

impl Cursor {
    /// The source.
    pub closed spec fn src(&self) -> Seq<char> {
        self.chars@
    }

    /// The position.
    pub closed spec fn pos(&self) -> int {
        self.current as int
    }

    #[verifier::type_invariant]
    spec fn wf(&self) -> bool {
        &&& 4 * self.chars@.len() < usize::MAX
        &&& self.current <= self.chars@.len()
        &&& self.line == line_of(self.chars@, self.current as int)
        &&& self.line_start == line_start(self.chars@, self.current as int)
        &&& self.offset == byte_offset(self.chars@, self.current as int)
    }

    /// A cursor at the start of `chars`.
    pub fn new(chars: Vec<char>) -> (c: Cursor)
        requires
            4 * chars@.len() < usize::MAX,
        ensures
            c.src() == chars@,
            c.pos() == 0,
    {
        Cursor { chars, current: 0, line: 1, line_start: 0, offset: 0 }
    }

    /// Whether the whole source has been passed.
    pub fn is_at_end(&self) -> (r: bool)
        ensures
            r == (self.pos() >= self.src().len()),
            0 <= self.pos() <= self.src().len(),
    {
        proof {
            use_type_invariant(self);
        }
        self.current >= self.chars.len()
    }

    /// The character at the position, if the source has one there.
    pub fn peek(&self) -> (r: Option<char>)
        ensures
            0 <= self.pos() <= self.src().len(),
            r == if self.pos() < self.src().len() {
                Some(self.src()[self.pos()])
            } else {
                None
            },
    {
        proof {
            use_type_invariant(self);
        }
        if self.current < self.chars.len() {
            Some(self.chars[self.current])
        } else {
            None
        }
    }

    /// The character after the one at the position, if the source has one there.
    pub fn peek_next(&self) -> (r: Option<char>)
        ensures
            r == if self.pos() + 1 < self.src().len() {
                Some(self.src()[self.pos() + 1])
            } else {
                None
            },
    {
        proof {
            use_type_invariant(self);
        }
        if self.current + 1 < self.chars.len() {
            Some(self.chars[self.current + 1])
        } else {
            None
        }
    }

    /// The place of the position.
    pub fn mark(&self) -> (m: Mark)
        ensures
            m == mark_at(self.src(), self.pos()),
            m.pos == self.pos(),
            m.line == line_of(self.src(), self.pos()),
            m.column == column_of(self.src(), self.pos()),
            m.offset == byte_offset(self.src(), self.pos()),
            0 <= self.pos() <= self.src().len(),
    {
        proof {
            use_type_invariant(self);
            lemma_positions(self.chars@, self.current as int);
        }
        Mark {
            pos: self.current,
            line: self.line,
            column: 1 + (self.current - self.line_start),
            offset: self.offset,
        }
    }

    /// Steps over one character.
    pub fn advance(&mut self)
        requires
            old(self).pos() < old(self).src().len(),
        ensures
            final(self).src() == old(self).src(),
            final(self).pos() == old(self).pos() + 1,
    {
        proof {
            use_type_invariant(&*self);
            lemma_positions(self.chars@, self.current as int);
            lemma_positions(self.chars@, self.current as int + 1);
        }
        let c = self.chars[self.current];
        let mut cur = Cursor::new(Vec::new());
        std::mem::swap(self, &mut cur);
        let n = cur.current + 1;
        let newline = c == '\n';
        *self = Cursor {
            chars: cur.chars,
            current: n,
            line: if newline {
                cur.line + 1
            } else {
                cur.line
            },
            line_start: if newline {
                n
            } else {
                cur.line_start
            },
            offset: cur.offset + char_width(c),
        };
    }

    /// Steps over `c` if it is the character at the position.
    pub fn match_char(&mut self, c: char) -> (r: bool)
        ensures
            final(self).src() == old(self).src(),
            r == (old(self).pos() < old(self).src().len() && old(self).src()[old(self).pos()]
                == c),
            final(self).pos() == if r {
                old(self).pos() + 1
            } else {
                old(self).pos()
            },
    {
        match self.peek() {
            Some(d) => {
                if d == c {
                    self.advance();
                    true
                } else {
                    false
                }
            },
            None => false,
        }
    }

    /// Steps over the longest run of `class` characters.
    pub fn skip_run(&mut self, class: CharClass)
        ensures
            final(self).src() == old(self).src(),
            final(self).pos() == run_end(old(self).src(), old(self).pos(), class),
    {
        loop
            invariant
                self.src() == old(self).src(),
                old(self).pos() <= self.pos(),
                run_end(self.src(), self.pos(), class) == run_end(
                    old(self).src(),
                    old(self).pos(),
                    class,
                ),
            decreases self.src().len() - self.pos(),
        {
            match self.peek() {
                Some(c) => {
                    if char_in_class(class, c) {
                        self.advance();
                    } else {
                        return ;
                    }
                },
                None => {
                    return ;
                },
            }
        }
    }

    /// Steps to just after the next `*/`, or to the end if there is none.
    /// Returns whether there was one.
    pub fn skip_comment(&mut self) -> (closed: bool)
        ensures
            final(self).src() == old(self).src(),
            match comment_end(old(self).src(), old(self).pos()) {
                Some(end) => closed && final(self).pos() == end,
                None => !closed && final(self).pos() == final(self).src().len(),
            },
    {
        loop
            invariant
                self.src() == old(self).src(),
                old(self).pos() <= self.pos(),
                comment_end(self.src(), self.pos()) == comment_end(
                    old(self).src(),
                    old(self).pos(),
                ),
            decreases self.src().len() - self.pos(),
        {
            match self.peek() {
                Some(c) => {
                    let next = self.peek_next();
                    if c == '*' && next == Some('/') {
                        self.advance();
                        self.advance();
                        return true;
                    }
                    self.advance();
                },
                None => {
                    return false;
                },
            }
        }
    }

    /// The characters `start..end` of the source.
    pub fn text(&self, start: usize, end: usize) -> (s: String)
        requires
            start <= end <= self.src().len(),
        ensures
            s@ == self.src().subrange(start as int, end as int),
    {
        string_of(&self.chars, start, end)
    }

    /// Whether the characters `start..end` of the source spell `word`.
    pub fn spells(&self, start: usize, end: usize, word: &str) -> (r: bool)
        requires
            start <= end <= self.src().len(),
        ensures
            r == (self.src().subrange(start as int, end as int) == word@),
    {
        let n: usize = end - start;
        let ghost text = self.chars@.subrange(start as int, end as int);
        let mut i: usize = 0;
        let mut same = true;
        for c in it: word.chars()
            invariant
                it.seq() == word@,
                start + n == end,
                end <= self.chars@.len(),
                text == self.chars@.subrange(start as int, end as int),
                same ==> i == it.index() && i <= n && forall|j: int|
                    0 <= j < i ==> text[j] == word@[j],
                !same ==> text != word@,
        {
            if same && i < n && self.chars[start + i] == c {
                i += 1;
            } else {
                if same {
                    if i < n {
                        assert(text[i as int] != word@[i as int]);
                    } else {
                        assert(text.len() != word@.len());
                    }
                }
                same = false;
            }
        }
        if same && i == n {
            assert(text =~= word@);
            true
        } else {
            false
        }
    }
}


/// The views of a sequence of errors.
pub open spec fn error_views(errors: Seq<(ScannerError, Span)>) -> Seq<(ScannerErrorView, Span)> {
    Seq::new(errors.len(), |i: int| (errors[i].0@, errors[i].1))
}

/// The views of a sequence of tokens.
pub open spec fn views(tokens: Seq<Token>) -> Seq<TokenView> {
    Seq::new(tokens.len(), |i: int| tokens[i]@)
}

/// A scan in progress.
pub struct Scanner {
    cursor: Cursor,
    tokens: Vec<Token>,
    errors: Vec<(ScannerError, Span)>,
}

impl Scanner {
    /// The source.
    pub closed spec fn src(&self) -> Seq<char> {
        self.cursor.src()
    }

    /// The position that the scan has reached.
    pub closed spec fn pos(&self) -> int {
        self.cursor.pos()
    }

    /// What has been found so far.
    pub closed spec fn lexing(&self) -> Lexing {
        Lexing { tokens: views(self.tokens@), errors: error_views(self.errors@) }
    }

    /// A scanner at the start of `source`.
    pub fn new(source: &str) -> (s: Scanner)
        requires
            4 * source@.len() < usize::MAX,
        ensures
            s.src() == source@,
            s.pos() == 0,
            s.lexing() == (Lexing { tokens: Seq::empty(), errors: Seq::empty() }),
    {
        let s = Scanner {
            cursor: Cursor::new(chars_of(source)),
            tokens: Vec::new(),
            errors: Vec::new(),
        };
        assert(s.lexing().tokens =~= Seq::empty());
        assert(s.lexing().errors =~= Seq::empty());
        s
    }

    /// Records a token that started at `mark` and ends at the position.
    fn add_token(&mut self, mark: Mark, token_type: TokenType, literal: Option<Literal>)
        requires
            mark == mark_at(old(self).src(), mark.pos as int),
            mark.pos <= old(self).pos(),
        ensures
            final(self).src() == old(self).src(),
            final(self).pos() == old(self).pos(),
            final(self).lexing() == lexing_push(
                old(self).src(),
                old(self).lexing(),
                mark.pos as int,
                Piece {
                    end: old(self).pos(),
                    lexed: Lexed::Token {
                        token_type,
                        literal: crate::token::literal_view(literal),
                    },
                },
            ),
    {
        let end = self.cursor.mark();
        let token = Token {
            token_type,
            line: mark.line,
            column: mark.column,
            literal,
            span: Span { start: mark.offset, end: end.offset },
        };
        self.tokens.push(token);
        assert(views(self.tokens@) =~= views(old(self).tokens@).push(token@));
    }

    /// Records an error that started at `mark` and ends at the position.
    fn error(&mut self, mark: Mark, error: ScannerError)
        requires
            mark == mark_at(old(self).src(), mark.pos as int),
            mark.pos <= old(self).pos(),
        ensures
            final(self).src() == old(self).src(),
            final(self).pos() == old(self).pos(),
            final(self).lexing() == lexing_push(
                old(self).src(),
                old(self).lexing(),
                mark.pos as int,
                Piece { end: old(self).pos(), lexed: Lexed::Error(error@) },
            ),
    {
        let end = self.cursor.mark();
        let span = Span { start: mark.offset, end: end.offset };
        self.errors.push((error, span));
        assert(error_views(self.errors@) =~= error_views(old(self).errors@).push((error@, span)));
    }

    /// Scans a string whose opening quote, at `mark`, has been passed.
    fn string(&mut self, mark: Mark)
        requires
            mark == mark_at(old(self).src(), mark.pos as int),
            mark.pos + 1 == old(self).pos(),
            old(self).pos() <= old(self).src().len(),
            old(self).src()[mark.pos as int] == '"',
        ensures
            final(self).src() == old(self).src(),
            final(self).pos() == piece_at(old(self).src(), mark.pos as int).end,
            final(self).lexing() == lexing_push(
                old(self).src(),
                old(self).lexing(),
                mark.pos as int,
                piece_at(old(self).src(), mark.pos as int),
            ),
    {
        proof {
            lemma_run_end(self.src(), mark.pos + 1, CharClass::StringBody);
        }
        self.cursor.skip_run(CharClass::StringBody);
        let close = self.cursor.mark();
        if self.cursor.match_char('"') {
            let body = self.cursor.text(mark.pos + 1, close.pos);
            self.add_token(mark, TokenType::String, Some(Literal::String(body)));
        } else {
            let text = self.cursor.text(mark.pos, close.pos);
            self.error(mark, ScannerError::MalformedString(text));
        }
    }

    /// Scans a number whose first digit, at `mark`, has been passed.
    fn number(&mut self, mark: Mark)
        requires
            mark == mark_at(old(self).src(), mark.pos as int),
            mark.pos + 1 == old(self).pos(),
            old(self).pos() <= old(self).src().len(),
            is_digit(old(self).src()[mark.pos as int]),
        ensures
            final(self).src() == old(self).src(),
            final(self).pos() == piece_at(old(self).src(), mark.pos as int).end,
            final(self).lexing() == lexing_push(
                old(self).src(),
                old(self).lexing(),
                mark.pos as int,
                piece_at(old(self).src(), mark.pos as int),
            ),
    {
        proof {
            lemma_run_end(self.src(), mark.pos as int, CharClass::Digit);
            lemma_run_end(self.src(), mark.pos + 1, CharClass::Digit);
        }
        self.cursor.skip_run(CharClass::Digit);
        let dot = self.cursor.peek();
        let after = self.cursor.peek_next();
        let fraction = match (dot, after) {
            (Some(d), Some(a)) => d == '.' && char_in_class(CharClass::Digit, a),
            _ => false,
        };
        if fraction {
            proof {
                lemma_run_end(self.src(), self.pos() + 1, CharClass::Digit);
                lemma_run_end(self.src(), self.pos() + 2, CharClass::Digit);
            }
            self.cursor.advance();
            self.cursor.skip_run(CharClass::Digit);
        }
        let end = self.cursor.mark();
        let text = self.cursor.text(mark.pos, end.pos);
        self.add_token(mark, TokenType::Number, Some(Literal::String(text)));
    }

    /// The keyword that the characters `start..end` spell, if they spell one.
    fn keyword(&self, start: usize, end: usize) -> (r: Option<TokenType>)
        requires
            start <= end <= self.src().len(),
        ensures
            r == keyword(self.src().subrange(start as int, end as int)),
    {
        let c = &self.cursor;
        if c.spells(start, end, "and") {
            Some(TokenType::And)
        } else if c.spells(start, end, "class") {
            Some(TokenType::Class)
        } else if c.spells(start, end, "else") {
            Some(TokenType::Else)
        } else if c.spells(start, end, "false") {
            Some(TokenType::False)
        } else if c.spells(start, end, "for") {
            Some(TokenType::For)
        } else if c.spells(start, end, "fun") {
            Some(TokenType::Fun)
        } else if c.spells(start, end, "if") {
            Some(TokenType::If)
        } else if c.spells(start, end, "nil") {
            Some(TokenType::Nil)
        } else if c.spells(start, end, "or") {
            Some(TokenType::Or)
        } else if c.spells(start, end, "print") {
            Some(TokenType::Print)
        } else if c.spells(start, end, "return") {
            Some(TokenType::Return)
        } else if c.spells(start, end, "super") {
            Some(TokenType::Super)
        } else if c.spells(start, end, "this") {
            Some(TokenType::This)
        } else if c.spells(start, end, "true") {
            Some(TokenType::True)
        } else if c.spells(start, end, "var") {
            Some(TokenType::Var)
        } else if c.spells(start, end, "while") {
            Some(TokenType::While)
        } else {
            None
        }
    }

    /// Scans a keyword or identifier whose first character, at `mark`, has been passed.
    fn identifier(&mut self, mark: Mark)
        requires
            mark == mark_at(old(self).src(), mark.pos as int),
            mark.pos + 1 == old(self).pos(),
            old(self).pos() <= old(self).src().len(),
            is_alpha(old(self).src()[mark.pos as int]),
        ensures
            final(self).src() == old(self).src(),
            final(self).pos() == piece_at(old(self).src(), mark.pos as int).end,
            final(self).lexing() == lexing_push(
                old(self).src(),
                old(self).lexing(),
                mark.pos as int,
                piece_at(old(self).src(), mark.pos as int),
            ),
    {
        proof {
            lemma_run_end(self.src(), mark.pos as int, CharClass::Word);
            lemma_run_end(self.src(), mark.pos + 1, CharClass::Word);
        }
        self.cursor.skip_run(CharClass::Word);
        let end = self.cursor.mark();
        match self.keyword(mark.pos, end.pos) {
            Some(token_type) => self.add_token(mark, token_type, None),
            None => {
                let word = self.cursor.text(mark.pos, end.pos);
                self.add_token(mark, TokenType::Identifier, Some(Literal::String(word)));
            },
        }
    }

    /// Scans what follows a `/` at `mark`: a comment, or nothing if it is a division sign.
    fn slash(&mut self, mark: Mark)
        requires
            mark == mark_at(old(self).src(), mark.pos as int),
            mark.pos + 1 == old(self).pos(),
            old(self).pos() <= old(self).src().len(),
            old(self).src()[mark.pos as int] == '/',
        ensures
            final(self).src() == old(self).src(),
            final(self).pos() == piece_at(old(self).src(), mark.pos as int).end,
            final(self).lexing() == lexing_push(
                old(self).src(),
                old(self).lexing(),
                mark.pos as int,
                piece_at(old(self).src(), mark.pos as int),
            ),
    {
        if self.cursor.match_char('/') {
            self.cursor.skip_run(CharClass::LineRest);
        } else if self.cursor.match_char('*') {
            if !self.cursor.skip_comment() {
                self.error(mark, ScannerError::MalformedComment);
            }
        } else {
            self.add_token(mark, TokenType::Slash, None);
        }
    }

    /// Scans the lexical element at the position.
    pub fn scan_token(&mut self)
        requires
            0 <= old(self).pos() < old(self).src().len(),
        ensures
            final(self).src() == old(self).src(),
            final(self).pos() == piece_at(old(self).src(), old(self).pos()).end,
            final(self).lexing() == lexing_push(
                old(self).src(),
                old(self).lexing(),
                old(self).pos(),
                piece_at(old(self).src(), old(self).pos()),
            ),
    {
        let mark = self.cursor.mark();
        let c = match self.cursor.peek() {
            Some(c) => c,
            None => {
                return ;
            },
        };
        self.cursor.advance();
        if char_is_space(c) {
            return ;
        }
        match char_punctuation(c) {
            Some(token_type) => {
                self.add_token(mark, token_type, None);
                return ;
            },
            None => {},
        }
        match char_operator(c) {
            Some(op) => {
                if self.cursor.match_char('=') {
                    self.add_token(mark, op.extended, None);
                } else {
                    self.add_token(mark, op.alone, None);
                }
                return ;
            },
            None => {},
        }
        if c == '/' {
            self.slash(mark);
        } else if c == '"' {
            self.string(mark);
        } else if char_in_class(CharClass::Digit, c) {
            self.number(mark);
        } else if char_is_alpha(c) {
            self.identifier(mark);
        } else {
            self.error(mark, ScannerError::default());
        }
    }

    /// Whether the whole source has been scanned.
    pub fn is_at_end(&self) -> (r: bool)
        ensures
            r == (self.pos() >= self.src().len()),
            0 <= self.pos() <= self.src().len(),
    {
        self.cursor.is_at_end()
    }

    /// Scans the rest of the source.  Returns the tokens, closed by `Eof`, if
    /// no error was found from the start on, and all the errors otherwise.
    pub fn scan(self) -> (r: Result<Vec<Token>, Vec<(ScannerError, Span)>>)
        ensures
            scanned(self.src(), lex_from(self.src(), self.pos(), self.lexing()), r),
    {
        let mut s = self;
        let _ = s.is_at_end();
        while !s.cursor.is_at_end()
            invariant
                s.src() == self.src(),
                0 <= s.pos() <= s.src().len(),
                lex_from(s.src(), s.pos(), s.lexing()) == lex_from(
                    self.src(),
                    self.pos(),
                    self.lexing(),
                ),
            decreases s.src().len() - s.pos(),
        {
            proof {
                lemma_piece_advances(s.src(), s.pos());
            }
            s.scan_token();
        }
        let mark = s.cursor.mark();
        let Scanner { cursor, tokens, errors } = s;
        if errors.len() == 0 {
            let mut tokens = tokens;
            let eof = Token {
                token_type: TokenType::Eof,
                line: mark.line,
                column: mark.column,
                literal: None,
                span: Span { start: mark.offset, end: mark.offset },
            };
            let ghost before = views(tokens@);
            tokens.push(eof);
            assert(views(tokens@) =~= before.push(eof@));
            Ok(tokens)
        } else {
            Err(errors)
        }
    }
}

/// `r` is the result of a scan of `src` that found `lexing`.
pub open spec fn scanned(
    src: Seq<char>,
    lexing: Lexing,
    r: Result<Vec<Token>, Vec<(ScannerError, Span)>>,
) -> bool {
    if lexing.errors.len() == 0 {
        r is Ok && views(r->Ok_0@) == lexing.tokens.push(eof_token(src))
    } else {
        r is Err && error_views(r->Err_0@) == lexing.errors
    }
}

/// The tokens of `source`, closed by `Eof`, or else every error in it.
/// A `Number` token carries its text; see [`with_numbers`].
pub fn scan(source: &str) -> (r: Result<Vec<Token>, Vec<(ScannerError, Span)>>)
    requires
        4 * source@.len() < usize::MAX,
    ensures
        scanned(source@, lex(source@), r),
{
    Scanner::new(source).scan()
}


/// The text that a `Number` token carries before its value is known.
pub open spec fn number_text(t: TokenView) -> Seq<char> {
    match t.literal {
        Some(LiteralView::String(s)) => s,
        _ => Seq::empty(),
    }
}

/// The texts of the `Number` tokens among `tokens[..upto]`, in order.
pub open spec fn number_texts(tokens: Seq<TokenView>, upto: int) -> Seq<Seq<char>>
    decreases upto,
{
    if upto <= 0 {
        Seq::empty()
    } else if tokens[upto - 1].token_type == TokenType::Number {
        number_texts(tokens, upto - 1).push(number_text(tokens[upto - 1]))
    } else {
        number_texts(tokens, upto - 1)
    }
}

/// The views of a sequence of strings.
pub open spec fn texts(strings: Seq<String>) -> Seq<Seq<char>> {
    Seq::new(strings.len(), |i: int| strings[i]@)
}

/// The texts of the number literals among `tokens`, in order.  The host turns
/// each into the bits of the double that it denotes and hands them to
/// [`with_numbers`].
pub fn number_lexemes(tokens: &Vec<Token>) -> (r: Vec<String>)
    ensures
        texts(r@) == number_texts(views(tokens@), tokens@.len() as int),
{
    let mut r: Vec<String> = Vec::new();
    let mut i: usize = 0;
    assert(texts(r@) =~= Seq::empty());
    while i < tokens.len()
        invariant
            i <= tokens.len(),
            texts(r@) == number_texts(views(tokens@), i as int),
        decreases tokens.len() - i,
    {
        let ghost before = texts(r@);
        if tokens[i].token_type == TokenType::Number {
            let text = match &tokens[i].literal {
                Some(Literal::String(s)) => s.clone(),
                _ => String::new(),
            };
            r.push(text);
            assert(texts(r@) =~= before.push(number_text(tokens[i as int]@)));
        }
        i += 1;
    }
    r
}

/// `lexing` after the tokens `tokens[from..]`, the `k`-th number among all
/// the tokens taking its value from `values[k]`; `rank` numbers precede `from`.
/// A number without a value is an `InvalidNumber` error.
pub open spec fn numbered_from(
    tokens: Seq<TokenView>,
    values: Seq<Option<u64>>,
    from: int,
    rank: int,
    lexing: Lexing,
) -> Lexing
    decreases tokens.len() - from,
{
    if from < 0 || from >= tokens.len() {
        lexing
    } else {
        let t = tokens[from];
        if t.token_type != TokenType::Number {
            numbered_from(
                tokens,
                values,
                from + 1,
                rank,
                Lexing { tokens: lexing.tokens.push(t), errors: lexing.errors },
            )
        } else if 0 <= rank < values.len() && values[rank] is Some {
            numbered_from(
                tokens,
                values,
                from + 1,
                rank + 1,
                Lexing {
                    tokens: lexing.tokens.push(
                        TokenView { literal: Some(LiteralView::Number(values[rank]->0)), ..t },
                    ),
                    errors: lexing.errors,
                },
            )
        } else {
            numbered_from(
                tokens,
                values,
                from + 1,
                rank + 1,
                Lexing {
                    tokens: lexing.tokens,
                    errors: lexing.errors.push(
                        (ScannerErrorView::InvalidNumber(number_text(t)), t.span),
                    ),
                },
            )
        }
    }
}

/// `r` holds `lexing`: the tokens if there is no error, else the errors.
pub open spec fn holds(lexing: Lexing, r: Result<Vec<Token>, Vec<(ScannerError, Span)>>) -> bool {
    if lexing.errors.len() == 0 {
        r is Ok && views(r->Ok_0@) == lexing.tokens
    } else {
        r is Err && error_views(r->Err_0@) == lexing.errors
    }
}

/// Gives each number literal its value: the `k`-th `Number` token gets
/// `values[k]`.  Where the value is `None` or missing, the literal is reported
/// as an `InvalidNumber`.
pub fn with_numbers(tokens: Vec<Token>, values: &Vec<Option<u64>>) -> (r: Result<
    Vec<Token>,
    Vec<(ScannerError, Span)>,
>)
    ensures
        holds(
            numbered_from(
                views(tokens@),
                values@,
                0,
                0,
                Lexing { tokens: Seq::empty(), errors: Seq::empty() },
            ),
            r,
        ),
{
    let mut out: Vec<Token> = Vec::new();
    let mut errors: Vec<(ScannerError, Span)> = Vec::new();
    let mut rank: usize = 0;
    let mut i: usize = 0;
    let ghost all = views(tokens@);
    assert(views(out@) =~= Seq::empty());
    assert(error_views(errors@) =~= Seq::empty());
    while i < tokens.len()
        invariant
            i <= tokens.len(),
            rank <= i,
            all == views(tokens@),
            numbered_from(
                all,
                values@,
                i as int,
                rank as int,
                Lexing { tokens: views(out@), errors: error_views(errors@) },
            ) == numbered_from(
                all,
                values@,
                0,
                0,
                Lexing { tokens: Seq::empty(), errors: Seq::empty() },
            ),
        decreases tokens.len() - i,
    {
        let ghost before = views(out@);
        let ghost errors_before = error_views(errors@);
        let t = tokens[i].clone();
        if t.token_type != TokenType::Number {
            out.push(t);
            assert(views(out@) =~= before.push(all[i as int]));
        } else {
            let value = if rank < values.len() {
                values[rank]
            } else {
                None
            };
            match value {
                Some(bits) => {
                    let numbered = Token { literal: Some(Literal::Number(bits)), ..t };
                    out.push(numbered);
                    assert(views(out@) =~= before.push(
                        TokenView { literal: Some(LiteralView::Number(bits)), ..all[i as int] },
                    ));
                },
                None => {
                    let text = match &t.literal {
                        Some(Literal::String(s)) => s.clone(),
                        _ => String::new(),
                    };
                    let e = ScannerError::InvalidNumber(text);
                    errors.push((e, t.span));
                    assert(error_views(errors@) =~= errors_before.push(
                        (ScannerErrorView::InvalidNumber(number_text(all[i as int])), t.span),
                    ));
                },
            }
            rank += 1;
        }
        i += 1;
    }
    if errors.len() == 0 {
        Ok(out)
    } else {
        Err(errors)
    }
}


/// The first character of `src`, from `from` on, that starts at or after
/// the byte `offset`; the end of `src` if none does.
pub open spec fn char_at_byte(src: Seq<char>, from: int, offset: int) -> int
    decreases src.len() - from,
{
    if from < 0 || from >= src.len() || byte_offset(src, from) >= offset {
        from
    } else {
        char_at_byte(src, from + 1, offset)
    }
}

/// The line and the column, both counted from 1, of the character of
/// `source` that the byte `offset` lies in or before.
pub fn locate(source: &str, offset: usize) -> (r: (usize, usize))
    requires
        4 * source@.len() < usize::MAX,
    ensures
        r.0 == line_of(source@, char_at_byte(source@, 0, offset as int)),
        r.1 == column_of(source@, char_at_byte(source@, 0, offset as int)),
{
    let mut cursor = Cursor::new(chars_of(source));
    loop
        invariant
            cursor.src() == source@,
            0 <= cursor.pos() <= source@.len(),
            char_at_byte(source@, cursor.pos(), offset as int) == char_at_byte(
                source@,
                0,
                offset as int,
            ),
        decreases source@.len() - cursor.pos(),
    {
        let mark = cursor.mark();
        if cursor.is_at_end() || mark.offset >= offset {
            return (mark.line, mark.column);
        }
        cursor.advance();
    }
}


/// The scanner error `e`, found at the bytes `span` of `src`, as an error
/// with the line and the column where it starts.
pub open spec fn located(src: Seq<char>, e: ScannerErrorView, span: Span) -> LoxErrView {
    let at = char_at_byte(src, 0, span.start as int);
    LoxErrView::Scan {
        line: line_of(src, at) as usize,
        col: column_of(src, at) as usize,
        message: scanner_message(e),
    }
}

/// The scanner errors `errors` of `source`, each with the line and the
/// column where it starts.
pub fn locate_all(source: &str, errors: &Vec<(ScannerError, Span)>) -> (r: Vec<LoxErr>)
    requires
        4 * source@.len() < usize::MAX,
    ensures
        r.len() == errors.len(),
        forall|i: int|
            0 <= i < errors.len() ==> (#[trigger] r[i])@ == located(
                source@,
                errors[i].0@,
                errors[i].1,
            ),
{
    let mut out: Vec<LoxErr> = Vec::new();
    let mut i: usize = 0;
    while i < errors.len()
        invariant
            4 * source@.len() < usize::MAX,
            0 <= i <= errors.len(),
            out.len() == i,
            forall|j: int|
                0 <= j < i ==> (#[trigger] out[j])@ == located(source@, errors[j].0@, errors[j].1),
        decreases errors.len() - i,
    {
        let (line, col) = locate(source, errors[i].1.start);
        out.push(LoxErr::scan(&errors[i].0, line, col));
        i += 1;
    }
    out
}

} // verus!
