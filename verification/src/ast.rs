//! The syntax tree, kept in an arena.
//!
//! Every expression and statement is a node of one arena and is named by
//! its index there; a node names its children, and the tokens it was made
//! from, by index too.  The index of an expression is its identity: two
//! expressions that read the same are still two nodes.  Lists of children
//! lie in a side table and a node holds the range of its list.
use vstd::prelude::*;

use crate::error::{LoxErr, LoxErrView};
use crate::scanner::views;
use crate::token::{identifier_of, Literal, LiteralView, Token, TokenType, TokenView};

verus! {

/// A range of the side table of an [`Ast`]: a list of indices.
#[derive(Clone, Copy, Debug, PartialEq, Eq, Structural)]
pub struct List {
    pub start: usize,
    pub len: usize,
}

/// A literal value in the source.  A string is named by its token.
#[derive(Clone, Copy, Debug, PartialEq, Eq, Structural)]
pub enum Lit {
    Nil,
    Boolean(bool),
    /// A number, by the bits of its double.
    Number(u64),
    String(usize),
}

/// `params` are tokens, `body` holds the statements.
#[derive(Clone, Copy, Debug, PartialEq, Eq, Structural)]
pub struct ExprFunction {
    pub params: List,
    pub body: StmtBlock,
}

/// A call: the callee, the closing parenthesis and the arguments.
#[derive(Clone, Copy, Debug, PartialEq, Eq, Structural)]
pub struct ExprCall {
    pub callee: usize,
    pub paren: usize,
    pub args: List,
}

/// A property read: `expr.name`.
#[derive(Clone, Copy, Debug, PartialEq, Eq, Structural)]
pub struct ExprGet {
    pub name: usize,
    pub expr: usize,
}

/// A property write: `target.name = value`.
#[derive(Clone, Copy, Debug, PartialEq, Eq, Structural)]
pub struct ExprSet {
    pub name: usize,
    pub target: usize,
    pub value: usize,
}

/// An assignment to the variable `name`.
#[derive(Clone, Copy, Debug, PartialEq, Eq, Structural)]
pub struct ExprAssign {
    pub name: usize,
    pub expression: usize,
}

/// An expression in parentheses.
#[derive(Clone, Copy, Debug, PartialEq, Eq, Structural)]
pub struct ExprGrouping {
    pub expression: usize,
}

/// A prefix operator and its operand.
#[derive(Clone, Copy, Debug, PartialEq, Eq, Structural)]
pub struct ExprUnary {
    pub right: usize,
    pub operator: usize,
}

/// An arithmetic or comparison operator between two operands.
#[derive(Clone, Copy, Debug, PartialEq, Eq, Structural)]
pub struct ExprBinary {
    pub left: usize,
    pub right: usize,
    pub operator: usize,
}

/// `and` or `or` between two operands.
#[derive(Clone, Copy, Debug, PartialEq, Eq, Structural)]
pub struct ExprLogical {
    pub left: usize,
    pub right: usize,
    pub operator: usize,
}

/// `super.method`.
#[derive(Clone, Copy, Debug, PartialEq, Eq, Structural)]
pub struct ExprSuper {
    pub keyword: usize,
    pub method: usize,
}

/// The shapes of expression.  Tokens and subexpressions are indices.
#[derive(Clone, Copy, Debug, PartialEq, Eq, Structural)]
pub enum ExprKind {
    Unary(ExprUnary),
    Binary(ExprBinary),
    Call(ExprCall),
    Logical(ExprLogical),
    Literal(Lit),
    Grouping(ExprGrouping),
    Function(ExprFunction),
    Var(usize),
    Assign(ExprAssign),
    Get(ExprGet),
    SetField(ExprSet),
    This(usize),
    Super(ExprSuper),
}

/// An expression with its identity.
#[derive(Clone, Copy, Debug, PartialEq, Eq, Structural)]
pub struct Expr {
    pub id: usize,
    pub kind: ExprKind,
}

impl Expr {
    /// The expression `kind` under the identity `id`.
    pub fn new(id: usize, kind: ExprKind) -> (e: Expr)
        ensures
            e == (Expr { id, kind }),
    {
        Expr { id, kind }
    }
}

/// `return`, with the value that it returns.
#[derive(Clone, Copy, Debug, PartialEq, Eq, Structural)]
pub struct StmtReturn {
    pub keyword: usize,
    pub val: usize,
}

/// The declaration of the function `name`.
#[derive(Clone, Copy, Debug, PartialEq, Eq, Structural)]
pub struct StmtFun {
    pub name: usize,
    pub def: ExprFunction,
}

/// An expression evaluated for its effect.
#[derive(Clone, Copy, Debug, PartialEq, Eq, Structural)]
pub struct StmtExpr {
    pub expr: usize,
}

/// `print` and the expression that it prints.
#[derive(Clone, Copy, Debug, PartialEq, Eq, Structural)]
pub struct StmtPrint {
    pub expr: usize,
}

/// The declaration of the variable `token`, with its initial value if it has one.
#[derive(Clone, Copy, Debug, PartialEq, Eq, Structural)]
pub struct StmtVar {
    pub token: usize,
    pub expr: Option<usize>,
}

/// The statements between two braces.
#[derive(Clone, Copy, Debug, PartialEq, Eq, Structural)]
pub struct StmtBlock {
    pub stmts: List,
}

/// A loop: `stmt` runs as long as `expr` is truthy.
#[derive(Clone, Copy, Debug, PartialEq, Eq, Structural)]
pub struct StmtWhile {
    pub stmt: usize,
    pub expr: usize,
}

/// A choice between `then_branch` and `else_stmt` by `cond`.
#[derive(Clone, Copy, Debug, PartialEq, Eq, Structural)]
pub struct StmtIf {
    pub cond: usize,
    pub then_branch: usize,
    pub else_stmt: Option<usize>,
}

/// `superclass` is a `Var` expression; `methods` are `Fun` statements.
#[derive(Clone, Copy, Debug, PartialEq, Eq, Structural)]
pub struct StmtClass {
    pub name: usize,
    pub superclass: Option<usize>,
    pub methods: List,
}

/// The shapes of statement.
#[derive(Clone, Copy, Debug, PartialEq, Eq, Structural)]
pub enum Stmt {
    Fun(StmtFun),
    Return(StmtReturn),
    Expr(StmtExpr),
    Print(StmtPrint),
    Var(StmtVar),
    Block(StmtBlock),
    If(StmtIf),
    While(StmtWhile),
    Class(StmtClass),
}

/// A node of the arena.
#[derive(Clone, Copy, Debug, PartialEq, Eq, Structural)]
pub enum Node {
    Expr(ExprKind),
    Stmt(Stmt),
}

/// A syntax tree with the tokens it was parsed from.
pub struct Ast {
    tokens: Vec<Token>,
    nodes: Vec<Node>,
    extra: Vec<usize>,
}

/// An [`Ast`] as contracts see it.
pub struct AstView {
    pub tokens: Seq<TokenView>,
    pub nodes: Seq<Node>,
    pub extra: Seq<usize>,
}

impl View for Ast {
    type V = AstView;

    closed spec fn view(&self) -> AstView {
        AstView { tokens: views(self.tokens@), nodes: self.nodes@, extra: self.extra@ }
    }
}

/// The expression at `id`, if there is one.
pub open spec fn expr_at(nodes: Seq<Node>, id: int) -> Option<ExprKind> {
    if 0 <= id < nodes.len() {
        match nodes[id] {
            Node::Expr(kind) => Some(kind),
            Node::Stmt(_) => None,
        }
    } else {
        None
    }
}

/// The statement at `id`, if there is one.
pub open spec fn stmt_at(nodes: Seq<Node>, id: int) -> Option<Stmt> {
    if 0 <= id < nodes.len() {
        match nodes[id] {
            Node::Stmt(stmt) => Some(stmt),
            Node::Expr(_) => None,
        }
    } else {
        None
    }
}

/// The `i`-th item of `list`, if the list is that long and lies within the side table.
pub open spec fn item_at(extra: Seq<usize>, list: List, i: int) -> Option<usize> {
    if 0 <= i < list.len && list.start + i < extra.len() {
        Some(extra[list.start + i])
    } else {
        None
    }
}

/// The name that token `id` stands for, if there is such a token and it stands for one.
pub open spec fn name_at(tokens: Seq<TokenView>, id: int) -> Option<Seq<char>> {
    if 0 <= id < tokens.len() {
        identifier_of(tokens[id])
    } else {
        None
    }
}

/// The literal that token `id` carries.
pub open spec fn lit_of(tokens: Seq<TokenView>, id: int) -> Lit {
    if 0 <= id < tokens.len() {
        match tokens[id].literal {
            Some(LiteralView::Number(bits)) => Lit::Number(bits),
            Some(LiteralView::String(_)) => Lit::String(id as usize),
            Some(LiteralView::Boolean(b)) => Lit::Boolean(b),
            _ => Lit::Nil,
        }
    } else {
        Lit::Nil
    }
}

/// The error of a tree that is not in order.
pub open spec fn malformed() -> LoxErrView {
    LoxErrView::Internal { message: "malformed syntax tree"@ }
}

impl Ast {
    /// A tree without nodes over `tokens`.
    pub fn new(tokens: Vec<Token>) -> (ast: Ast)
        ensures
            ast@ == (AstView {
                tokens: views(tokens@),
                nodes: Seq::empty(),
                extra: Seq::empty(),
            }),
    {
        Ast { tokens, nodes: Vec::new(), extra: Vec::new() }
    }

    /// Appends `tokens` to the tokens of the tree.
    pub fn add_tokens(&mut self, tokens: Vec<Token>)
        ensures
            final(self)@ == (AstView {
                tokens: old(self)@.tokens + views(tokens@),
                ..old(self)@
            }),
    {
        let ghost added = views(tokens@);
        let mut tokens = tokens;
        self.tokens.append(&mut tokens);
        assert(views(self.tokens@) =~= old(self)@.tokens + added);
    }

    /// The number of tokens.
    pub fn tokens_len(&self) -> (n: usize)
        ensures
            n == self@.tokens.len(),
    {
        self.tokens.len()
    }

    /// The number of nodes.
    pub fn len(&self) -> (n: usize)
        ensures
            n == self@.nodes.len(),
    {
        self.nodes.len()
    }

    /// The token at `id`.
    pub fn token(&self, id: usize) -> (r: Option<&Token>)
        ensures
            match r {
                Some(t) => id < self@.tokens.len() && t@ == self@.tokens[id as int],
                None => id >= self@.tokens.len(),
            },
    {
        if id < self.tokens.len() {
            Some(&self.tokens[id])
        } else {
            None
        }
    }

    /// The kind of the token at `id`; `Eof` if there is none.
    pub fn token_type(&self, id: usize) -> (t: TokenType)
        ensures
            t == crate::parser::kind_at(self@.tokens, id as int),
    {
        if id < self.tokens.len() {
            self.tokens[id].token_type
        } else {
            TokenType::Eof
        }
    }

    /// The name that the token at `id` stands for.
    pub fn name(&self, id: usize) -> (r: Result<&str, LoxErr>)
        ensures
            match name_at(self@.tokens, id as int) {
                Some(name) => r is Ok && r->Ok_0@ == name,
                None => r is Err && r->Err_0@ == (LoxErrView::Internal {
                    message: "No string value defined for identifier token"@,
                }),
            },
    {
        match self.token(id) {
            Some(t) => t.extract_identifier_str(),
            None => Err(LoxErr::internal("No string value defined for identifier token")),
        }
    }

    /// The text of the string literal at token `id`; empty if there is none.
    pub fn string(&self, id: usize) -> (r: &str)
        ensures
            r@ == string_at(self@.tokens, id as int),
    {
        match self.token(id) {
            Some(t) => match &t.literal {
                Some(Literal::String(s)) => s.as_str(),
                _ => "",
            },
            None => "",
        }
    }

    /// The literal that the token at `id` carries.
    pub fn lit(&self, id: usize) -> (l: Lit)
        ensures
            l == lit_of(self@.tokens, id as int),
    {
        match self.token(id) {
            Some(t) => match &t.literal {
                Some(Literal::Number(bits)) => Lit::Number(*bits),
                Some(Literal::String(_)) => Lit::String(id),
                Some(Literal::Boolean(b)) => Lit::Boolean(*b),
                _ => Lit::Nil,
            },
            None => Lit::Nil,
        }
    }

    /// The expression at `id`.
    pub fn expr(&self, id: usize) -> (r: Option<ExprKind>)
        ensures
            r == expr_at(self@.nodes, id as int),
    {
        if id < self.nodes.len() {
            match self.nodes[id] {
                Node::Expr(kind) => Some(kind),
                Node::Stmt(_) => None,
            }
        } else {
            None
        }
    }

    /// The statement at `id`.
    pub fn stmt(&self, id: usize) -> (r: Option<Stmt>)
        ensures
            r == stmt_at(self@.nodes, id as int),
    {
        if id < self.nodes.len() {
            match self.nodes[id] {
                Node::Stmt(stmt) => Some(stmt),
                Node::Expr(_) => None,
            }
        } else {
            None
        }
    }

    /// The `i`-th item of `list`.
    pub fn item(&self, list: List, i: usize) -> (r: Option<usize>)
        ensures
            r == item_at(self@.extra, list, i as int),
    {
        if i < list.len && list.start < self.extra.len() && i < self.extra.len() - list.start {
            Some(self.extra[list.start + i])
        } else {
            None
        }
    }

    /// Adds an expression and returns its index, which is its identity.
    pub fn push_expr(&mut self, kind: ExprKind) -> (id: usize)
        ensures
            id == old(self)@.nodes.len(),
            final(self)@ == (AstView {
                nodes: old(self)@.nodes.push(Node::Expr(kind)),
                ..old(self)@
            }),
    {
        let id = self.nodes.len();
        self.nodes.push(Node::Expr(kind));
        id
    }

    /// Adds a statement and returns its index.
    pub fn push_stmt(&mut self, stmt: Stmt) -> (id: usize)
        ensures
            id == old(self)@.nodes.len(),
            final(self)@ == (AstView {
                nodes: old(self)@.nodes.push(Node::Stmt(stmt)),
                ..old(self)@
            }),
    {
        let id = self.nodes.len();
        self.nodes.push(Node::Stmt(stmt));
        id
    }

    /// Adds a list to the side table and returns its range.
    pub fn push_list(&mut self, items: &Vec<usize>) -> (list: List)
        ensures
            list == (List { start: old(self)@.extra.len() as usize, len: items@.len() as usize }),
            final(self)@ == (AstView { extra: old(self)@.extra + items@, ..old(self)@ }),
    {
        let start = self.extra.len();
        let mut i: usize = 0;
        while i < items.len()
            invariant
                i <= items.len(),
                self@.tokens == old(self)@.tokens,
                self@.nodes == old(self)@.nodes,
                self@.extra == old(self)@.extra + items@.take(i as int),
            decreases items.len() - i,
        {
            self.extra.push(items[i]);
            assert(self@.extra =~= old(self)@.extra + items@.take(i + 1));
            i += 1;
        }
        assert(items@.take(items@.len() as int) =~= items@);
        List { start, len: items.len() }
    }
}

/// The text of the string literal at token `id`; empty if there is none.
pub open spec fn string_at(tokens: Seq<TokenView>, id: int) -> Seq<char> {
    if 0 <= id < tokens.len() {
        match tokens[id].literal {
            Some(LiteralView::String(s)) => s,
            _ => ""@,
        }
    } else {
        ""@
    }
}

} // verus!
