//! The part of a parsed Rust source file that the checks read, held as plain values.
//!
//! A front end (the command-line tool) parses source text and lowers it into these types;
//! the checks and the analyzer work on them alone. Line numbers are 1-based source lines.
use vstd::prelude::*;

verus! {

/// One segment of a path, e.g. `Client` in `token::Client::new`.
pub struct Segment {
    pub ident: String,
    /// The segment carries generic arguments (`Vec::<u32>`).
    pub has_arguments: bool,
}

/// A path such as `soroban_sdk::contractimpl` or `env`.
pub struct SynPath {
    pub leading_colon: bool,
    pub segments: Vec<Segment>,
}

/// The shape of an attribute's meta item: `#[a]`, `#[a(..)]` or `#[a = ..]`.
pub enum MetaKind {
    Path,
    List,
    NameValue,
}

/// An outer attribute.
pub struct Attribute {
    pub path: SynPath,
    pub kind: MetaKind,
    /// For a list attribute whose arguments are exactly one identifier (`#[cfg(test)]`),
    /// that identifier.
    pub single_ident_arg: Option<String>,
}

/// A type, as far as the checks look at it.
pub enum Ty {
    Path(SynPath),
    Reference(Box<Ty>),
    Other,
}

/// A pattern, as far as the checks look at it.
pub enum Pat {
    /// `x`, `mut x`, `ref x`.
    Ident(String),
    /// `x: T`.
    Typed(Box<Pat>),
    Other,
}

/// A function parameter; a `self` receiver is `Pat::Other` with `Ty::Other`.
pub struct FnArg {
    pub pat: Pat,
    pub ty: Ty,
}

/// A function signature.
pub struct Signature {
    pub ident: String,
    /// Line of the function's name.
    pub ident_line: usize,
    /// Line of the `fn` keyword.
    pub fn_line: usize,
    pub inputs: Vec<FnArg>,
}

/// Binary operators the checks distinguish.
pub enum BinOp {
    Div,
    DivAssign,
    Eq,
    Ne,
    Other,
}

/// A macro invocation (`name!(..)`) in expression or statement position.
pub struct MacroCall {
    pub path: SynPath,
    /// The tokens before the first top-level comma (after unwrapping one enclosing group)
    /// parsed as an expression; `None` when they do not form one.
    pub first_arg: Option<Box<Expr>>,
}

/// A method call `receiver.method(args)`.
pub struct MethodCall {
    pub receiver: Box<Expr>,
    pub method: String,
    pub args: Vec<Expr>,
    /// Line where the whole call expression starts.
    pub line: usize,
    /// Line and column of the method name.
    pub method_line: usize,
    pub method_column: usize,
    /// The receiver's tokens printed back as text (used to identify a receiver).
    pub receiver_text: String,
}

/// An expression. Kinds no check distinguishes are `Other`, holding their
/// sub-expressions (blocks as `Expr::Block`) in source order.
pub enum Expr {
    Path(SynPath),
    Lit,
    MethodCall(MethodCall),
    Call { func: Box<Expr>, args: Vec<Expr> },
    Field { base: Box<Expr>, member: Option<String> },
    Paren(Box<Expr>),
    Unary { not: bool, expr: Box<Expr> },
    Reference(Box<Expr>),
    Binary { left: Box<Expr>, op: BinOp, right: Box<Expr>, line: usize },
    If { cond: Box<Expr>, then_branch: Block, else_branch: Option<Box<Expr>> },
    While { cond: Box<Expr>, body: Block },
    Return(Option<Box<Expr>>),
    Macro(MacroCall),
    Block(Block),
    Other(Vec<Expr>),
}

/// A statement. Macro statements are `Stmt::Expr(Expr::Macro(..))`.
pub enum Stmt {
    Local { pat: Pat, init: Option<Box<Expr>>, diverge: Option<Box<Expr>> },
    Item(Item),
    Expr(Expr),
}

/// A block `{ .. }`.
pub struct Block {
    pub stmts: Vec<Stmt>,
    /// Line of the closing brace.
    pub end_line: usize,
}

/// A `static` item.
pub struct ItemStatic {
    pub ident: String,
    /// Line of the static's name.
    pub line: usize,
    pub mutable: bool,
    pub expr: Box<Expr>,
}

/// A method (or associated function) inside an `impl` block.
pub struct ImplFn {
    /// Declared `pub` (exactly; `pub(crate)` is not).
    pub is_pub: bool,
    pub sig: Signature,
    pub block: Block,
    /// Line where the method starts (its first attribute, if any).
    pub span_line: usize,
}

/// An item inside an `impl` block; kinds other than methods keep their expressions.
pub enum ImplItem {
    Fn(ImplFn),
    Other(Vec<Expr>),
}

/// An `impl` block.
pub struct ItemImpl {
    pub attrs: Vec<Attribute>,
    pub self_ty: Ty,
    /// Line where the block starts (its first attribute, if any).
    pub line: usize,
    pub items: Vec<ImplItem>,
}

/// An item. Kinds no check distinguishes are `Other`, holding their expressions
/// (bodies as `Expr::Block`) in source order.
pub enum Item {
    Mod { ident: String, attrs: Vec<Attribute>, content: Option<Vec<Item>> },
    Struct { ident: String, attrs: Vec<Attribute> },
    Impl(ItemImpl),
    Static(ItemStatic),
    Fn { block: Block },
    Other(Vec<Expr>),
}

/// A parsed source file.
pub struct SourceFile {
    pub items: Vec<Item>,
}

impl SynPath {
    /// The path as a single identifier (syn's `Path::get_ident`).
    pub open spec fn ident_of(&self) -> Option<Seq<char>> {
        if !self.leading_colon && self.segments.len() == 1 && !self.segments@[0].has_arguments {
            Some(self.segments@[0].ident@)
        } else {
            None
        }
    }

    /// The identifier of the last segment.
    pub open spec fn last_ident_of(&self) -> Option<Seq<char>> {
        if self.segments.len() > 0 {
            Some(self.segments@[self.segments.len() - 1].ident@)
        } else {
            None
        }
    }

    pub fn get_ident(&self) -> (r: Option<&String>)
        ensures
            r matches Some(s) ==> self.ident_of() == Some(s@),
            r is None ==> self.ident_of() is None,
    {
        if !self.leading_colon && self.segments.len() == 1 && !self.segments[0].has_arguments {
            Some(&self.segments[0].ident)
        } else {
            None
        }
    }

    pub fn last_ident(&self) -> (r: Option<&String>)
        ensures
            r matches Some(s) ==> self.last_ident_of() == Some(s@),
            r is None ==> self.last_ident_of() is None,
    {
        if self.segments.len() > 0 {
            Some(&self.segments[self.segments.len() - 1].ident)
        } else {
            None
        }
    }
}

/// One node of a traversal, in the order a syntax visitor meets them.
#[derive(Clone, Copy)]
pub enum Node<'a> {
    Expr(&'a Expr),
    /// A `let` statement, met before its initializer.
    Local(&'a Stmt),
    Impl(&'a ItemImpl),
}

pub open spec fn nodes_opt<'a>(o: &'a Option<Box<Expr>>) -> Seq<Node<'a>>
    decreases *o, 2int,
{
    match o {
        Some(e) => nodes_expr(e),
        None => Seq::empty(),
    }
}

/// Every node of `e`, `e` first, sub-expressions in source order.
pub open spec fn nodes_expr<'a>(e: &'a Expr) -> Seq<Node<'a>>
    decreases *e, 1int,
{
    seq![Node::Expr(e)] + match e {
        Expr::Path(_) => Seq::empty(),
        Expr::Lit => Seq::empty(),
        Expr::MethodCall(m) => nodes_expr(&m.receiver) + nodes_exprs(&m.args, m.args.len() as int),
        Expr::Call { func, args } => nodes_expr(func) + nodes_exprs(args, args.len() as int),
        Expr::Field { base, member } => nodes_expr(base),
        Expr::Paren(x) => nodes_expr(x),
        Expr::Unary { not, expr } => nodes_expr(expr),
        Expr::Reference(x) => nodes_expr(x),
        Expr::Binary { left, op, right, line } => nodes_expr(left) + nodes_expr(right),
        Expr::If { cond, then_branch, else_branch } => nodes_expr(cond) + nodes_block(then_branch)
            + nodes_opt(else_branch),
        Expr::While { cond, body } => nodes_expr(cond) + nodes_block(body),
        Expr::Return(x) => nodes_opt(x),
        Expr::Macro(_) => Seq::empty(),
        Expr::Block(b) => nodes_block(b),
        Expr::Other(children) => nodes_exprs(children, children.len() as int),
    }
}

/// The nodes of the first `n` expressions of `v`.
pub open spec fn nodes_exprs<'a>(v: &'a Vec<Expr>, n: int) -> Seq<Node<'a>>
    decreases *v, n,
{
    if n <= 0 || n > v.len() {
        Seq::empty()
    } else {
        nodes_exprs(v, n - 1) + nodes_expr(&v@[n - 1])
    }
}

pub open spec fn nodes_block<'a>(b: &'a Block) -> Seq<Node<'a>>
    decreases *b, 3int,
{
    nodes_stmts(&b.stmts, b.stmts.len() as int)
}

/// The nodes of the first `n` statements of `v`.
pub open spec fn nodes_stmts<'a>(v: &'a Vec<Stmt>, n: int) -> Seq<Node<'a>>
    decreases *v, n,
{
    if n <= 0 || n > v.len() {
        Seq::empty()
    } else {
        nodes_stmts(v, n - 1) + nodes_stmt(&v@[n - 1])
    }
}

pub open spec fn nodes_stmt<'a>(s: &'a Stmt) -> Seq<Node<'a>>
    decreases *s, 1int,
{
    match s {
        Stmt::Local { pat, init, diverge } => seq![Node::Local(s)] + nodes_opt(init) + nodes_opt(
            diverge,
        ),
        Stmt::Item(it) => nodes_item(it),
        Stmt::Expr(e) => nodes_expr(e),
    }
}

pub open spec fn nodes_item<'a>(it: &'a Item) -> Seq<Node<'a>>
    decreases *it, 1int,
{
    match it {
        Item::Mod { ident, attrs, content } => match content {
            Some(c) => nodes_items(c, c.len() as int),
            None => Seq::empty(),
        },
        Item::Struct { ident, attrs } => Seq::empty(),
        Item::Impl(imp) => seq![Node::Impl(imp)] + nodes_impl_items(&imp.items, imp.items.len() as int),
        Item::Static(st) => nodes_expr(&st.expr),
        Item::Fn { block } => nodes_block(block),
        Item::Other(children) => nodes_exprs(children, children.len() as int),
    }
}

/// The nodes of the first `n` items of `v`.
pub open spec fn nodes_items<'a>(v: &'a Vec<Item>, n: int) -> Seq<Node<'a>>
    decreases *v, n,
{
    if n <= 0 || n > v.len() {
        Seq::empty()
    } else {
        nodes_items(v, n - 1) + nodes_item(&v@[n - 1])
    }
}

pub open spec fn nodes_impl_item<'a>(it: &'a ImplItem) -> Seq<Node<'a>>
    decreases *it, 1int,
{
    match it {
        ImplItem::Fn(f) => nodes_block(&f.block),
        ImplItem::Other(children) => nodes_exprs(children, children.len() as int),
    }
}

/// The nodes of the first `n` items of an impl block's item list.
pub open spec fn nodes_impl_items<'a>(v: &'a Vec<ImplItem>, n: int) -> Seq<Node<'a>>
    decreases *v, n,
{
    if n <= 0 || n > v.len() {
        Seq::empty()
    } else {
        nodes_impl_items(v, n - 1) + nodes_impl_item(&v@[n - 1])
    }
}

/// Every node of a file, in visiting order.
pub open spec fn nodes_file<'a>(f: &'a SourceFile) -> Seq<Node<'a>> {
    nodes_items(&f.items, f.items.len() as int)
}

fn push_opt<'a>(o: &'a Option<Box<Expr>>, out: &mut Vec<Node<'a>>)
    ensures
        final(out)@ == old(out)@ + nodes_opt(o),
    decreases *o, 2int,
{
    match o {
        Some(e) => push_expr(e, out),
        None => {},
    }
}

fn push_expr<'a>(e: &'a Expr, out: &mut Vec<Node<'a>>)
    ensures
        final(out)@ == old(out)@ + nodes_expr(e),
    decreases *e, 1int,
{
    let ghost start = out@;
    out.push(Node::Expr(e));
    match e {
        Expr::Path(_) => {},
        Expr::Lit => {},
        Expr::MethodCall(m) => {
            push_expr(&m.receiver, out);
            push_exprs(&m.args, out);
        },
        Expr::Call { func, args } => {
            push_expr(func, out);
            push_exprs(args, out);
        },
        Expr::Field { base, member } => push_expr(base, out),
        Expr::Paren(x) => push_expr(x, out),
        Expr::Unary { not, expr } => push_expr(expr, out),
        Expr::Reference(x) => push_expr(x, out),
        Expr::Binary { left, op, right, line } => {
            push_expr(left, out);
            push_expr(right, out);
        },
        Expr::If { cond, then_branch, else_branch } => {
            push_expr(cond, out);
            push_block(then_branch, out);
            push_opt(else_branch, out);
        },
        Expr::While { cond, body } => {
            push_expr(cond, out);
            push_block(body, out);
        },
        Expr::Return(x) => push_opt(x, out),
        Expr::Macro(_) => {},
        Expr::Block(b) => push_block(b, out),
        Expr::Other(children) => push_exprs(children, out),
    }
    assert(out@ =~= start + nodes_expr(e));
}

fn push_exprs<'a>(v: &'a Vec<Expr>, out: &mut Vec<Node<'a>>)
    ensures
        final(out)@ == old(out)@ + nodes_exprs(v, v.len() as int),
    decreases *v, v.len() + 1,
{
    let ghost start = out@;
    let mut i: usize = 0;
    while i < v.len()
        invariant
            0 <= i <= v.len(),
            out@ == start + nodes_exprs(v, i as int),
        decreases v.len() - i,
    {
        proof {
            assert(decreases_to!(*v => v@[i as int]));
        }
        push_expr(&v[i], out);
        i += 1;
        assert(out@ =~= start + nodes_exprs(v, i as int));
    }
}

fn push_block<'a>(b: &'a Block, out: &mut Vec<Node<'a>>)
    ensures
        final(out)@ == old(out)@ + nodes_block(b),
    decreases *b, 3int,
{
    push_stmts(&b.stmts, out);
}

fn push_stmts<'a>(v: &'a Vec<Stmt>, out: &mut Vec<Node<'a>>)
    ensures
        final(out)@ == old(out)@ + nodes_stmts(v, v.len() as int),
    decreases *v, v.len() + 1,
{
    let ghost start = out@;
    let mut i: usize = 0;
    while i < v.len()
        invariant
            0 <= i <= v.len(),
            out@ == start + nodes_stmts(v, i as int),
        decreases v.len() - i,
    {
        proof {
            assert(decreases_to!(*v => v@[i as int]));
        }
        push_stmt(&v[i], out);
        i += 1;
        assert(out@ =~= start + nodes_stmts(v, i as int));
    }
}

fn push_stmt<'a>(s: &'a Stmt, out: &mut Vec<Node<'a>>)
    ensures
        final(out)@ == old(out)@ + nodes_stmt(s),
    decreases *s, 1int,
{
    let ghost start = out@;
    match s {
        Stmt::Local { pat, init, diverge } => {
            out.push(Node::Local(s));
            push_opt(init, out);
            push_opt(diverge, out);
        },
        Stmt::Item(it) => push_item(it, out),
        Stmt::Expr(e) => push_expr(e, out),
    }
    assert(out@ =~= start + nodes_stmt(s));
}

fn push_item<'a>(it: &'a Item, out: &mut Vec<Node<'a>>)
    ensures
        final(out)@ == old(out)@ + nodes_item(it),
    decreases *it, 1int,
{
    let ghost start = out@;
    match it {
        Item::Mod { ident, attrs, content } => match content {
            Some(c) => push_items(c, out),
            None => {},
        },
        Item::Struct { ident, attrs } => {},
        Item::Impl(imp) => {
            out.push(Node::Impl(imp));
            push_impl_items(&imp.items, out);
        },
        Item::Static(st) => push_expr(&st.expr, out),
        Item::Fn { block } => push_block(block, out),
        Item::Other(children) => push_exprs(children, out),
    }
    assert(out@ =~= start + nodes_item(it));
}

fn push_items<'a>(v: &'a Vec<Item>, out: &mut Vec<Node<'a>>)
    ensures
        final(out)@ == old(out)@ + nodes_items(v, v.len() as int),
    decreases *v, v.len() + 1,
{
    let ghost start = out@;
    let mut i: usize = 0;
    while i < v.len()
        invariant
            0 <= i <= v.len(),
            out@ == start + nodes_items(v, i as int),
        decreases v.len() - i,
    {
        proof {
            assert(decreases_to!(*v => v@[i as int]));
        }
        push_item(&v[i], out);
        i += 1;
        assert(out@ =~= start + nodes_items(v, i as int));
    }
}

fn push_impl_item<'a>(it: &'a ImplItem, out: &mut Vec<Node<'a>>)
    ensures
        final(out)@ == old(out)@ + nodes_impl_item(it),
    decreases *it, 1int,
{
    match it {
        ImplItem::Fn(f) => push_block(&f.block, out),
        ImplItem::Other(children) => push_exprs(children, out),
    }
}

fn push_impl_items<'a>(v: &'a Vec<ImplItem>, out: &mut Vec<Node<'a>>)
    ensures
        final(out)@ == old(out)@ + nodes_impl_items(v, v.len() as int),
    decreases *v, v.len() + 1,
{
    let ghost start = out@;
    let mut i: usize = 0;
    while i < v.len()
        invariant
            0 <= i <= v.len(),
            out@ == start + nodes_impl_items(v, i as int),
        decreases v.len() - i,
    {
        proof {
            assert(decreases_to!(*v => v@[i as int]));
        }
        push_impl_item(&v[i], out);
        i += 1;
        assert(out@ =~= start + nodes_impl_items(v, i as int));
    }
}

/// Every node of a block, in visiting order.
pub fn block_nodes<'a>(b: &'a Block) -> (r: Vec<Node<'a>>)
    ensures
        r@ == nodes_block(b),
{
    let mut out: Vec<Node<'a>> = Vec::new();
    push_block(b, &mut out);
    assert(out@ =~= nodes_block(b));
    out
}

/// Every node of an expression, in visiting order.
pub fn expr_nodes<'a>(e: &'a Expr) -> (r: Vec<Node<'a>>)
    ensures
        r@ == nodes_expr(e),
{
    let mut out: Vec<Node<'a>> = Vec::new();
    push_expr(e, &mut out);
    assert(out@ =~= nodes_expr(e));
    out
}

/// Every node of a file, in visiting order.
pub fn file_nodes<'a>(f: &'a SourceFile) -> (r: Vec<Node<'a>>)
    ensures
        r@ == nodes_file(f),
{
    let mut out: Vec<Node<'a>> = Vec::new();
    push_items(&f.items, &mut out);
    assert(out@ =~= nodes_file(f));
    out
}


/// A token of a macro's body, as far as finding its first argument needs.
#[derive(Clone, Copy, Debug, PartialEq, Eq, Structural)]
pub enum TokenKind {
    /// A `,` punctuation token.
    Comma,
    /// A delimited group `( .. )`, `[ .. ]` or `{ .. }`; its commas are not top-level.
    Group,
    /// Any other token.
    Other,
}

/// A macro body whose only token is a group: its first argument is read inside the group.
pub open spec fn single_group_spec(tokens: Seq<TokenKind>) -> bool {
    tokens.len() == 1 && tokens[0] == TokenKind::Group
}

/// Whether the body is one enclosing group to look into.
pub fn is_single_group(tokens: &Vec<TokenKind>) -> (r: bool)
    ensures
        r == single_group_spec(tokens@),
{
    tokens.len() == 1 && tokens[0] == TokenKind::Group
}

/// How many tokens come before the first top-level comma (all of them when there is none).
pub open spec fn first_arg_end_spec(tokens: Seq<TokenKind>) -> nat
    decreases tokens.len(),
{
    if tokens.len() == 0 {
        0
    } else if tokens[0] == TokenKind::Comma {
        0
    } else {
        1 + first_arg_end_spec(tokens.drop_first())
    }
}

/// The number of tokens that make up a macro's first argument.
pub fn first_arg_end(tokens: &Vec<TokenKind>) -> (r: usize)
    ensures
        r == first_arg_end_spec(tokens@),
        r <= tokens@.len(),
        forall|i: int| 0 <= i < r ==> tokens@[i] != TokenKind::Comma,
        r < tokens@.len() ==> tokens@[r as int] == TokenKind::Comma,
{
    let mut i: usize = 0;
    assert(tokens@.skip(0) =~= tokens@);
    while i < tokens.len() && tokens[i] != TokenKind::Comma
        invariant
            0 <= i <= tokens.len(),
            forall|j: int| 0 <= j < i ==> tokens@[j] != TokenKind::Comma,
            first_arg_end_spec(tokens@) == i + first_arg_end_spec(tokens@.skip(i as int)),
        decreases tokens.len() - i,
    {
        assert(tokens@.skip(i as int).drop_first() =~= tokens@.skip(i + 1));
        i += 1;
    }
    proof {
        if i < tokens.len() {
            assert(tokens@.skip(i as int)[0] == tokens@[i as int]);
        } else {
            assert(tokens@.skip(i as int).len() == 0);
        }
    }
    i
}

}
