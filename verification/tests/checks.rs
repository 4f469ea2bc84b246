//! The checks run on parsed snippets: the library parses each snippet, the same lowering
//! walk the command-line front end uses turns the tree into the library's syntax model,
//! and one check runs on it.

use soroban_guard::admin::UnprotectedAdminCheck;
use soroban_guard::annotations::MissingContractAnnotationCheck;
use soroban_guard::balance::MissingBalanceCheck;
use soroban_guard::checks::default_checks;
use soroban_guard::finding::{Check, Finding, Severity};
use soroban_guard::global_state::MutableGlobalStateCheck;
use soroban_guard::reinit::ReInitializationRiskCheck;
use soroban_guard::transfer::SelfTransferCheck;
use soroban_guard::unchecked_divisor::UncheckedDivisorCheck;
use soroban_guard::unprotected_upgrade::UnprotectedUpgradeCheck;
use soroban_guard::vec_growth::UnboundedVecGrowthCheck;
use soroban_guard::analyzer::ScanError;
use soroban_guard::source::{parse_and_lower, scan_source};
use proc_macro2::{TokenStream, TokenTree};
use quote::ToTokens;
use soroban_guard::syntax::{
    first_arg_end, is_single_group, Attribute, BinOp, Block, Expr, FnArg, ImplFn, ImplItem, Item, ItemImpl,
    ItemStatic, MacroCall, MetaKind, MethodCall, Pat, Segment, Signature, SourceFile, Stmt, SynPath, TokenKind, Ty,
};
use syn::spanned::Spanned;

fn lower_file(file: &syn::File) -> SourceFile {
    SourceFile { items: file.items.iter().map(lower_item).collect() }
}

fn lower_path(p: &syn::Path) -> SynPath {
    SynPath {
        leading_colon: p.leading_colon.is_some(),
        segments: p
            .segments
            .iter()
            .map(|s| Segment {
                ident: s.ident.to_string(),
                has_arguments: !matches!(s.arguments, syn::PathArguments::None),
            })
            .collect(),
    }
}

fn lower_attr(a: &syn::Attribute) -> Attribute {
    let kind = match &a.meta {
        syn::Meta::Path(_) => MetaKind::Path,
        syn::Meta::List(_) => MetaKind::List,
        syn::Meta::NameValue(_) => MetaKind::NameValue,
    };
    Attribute {
        path: lower_path(a.path()),
        kind,
        single_ident_arg: a.parse_args::<syn::Ident>().ok().map(|id| id.to_string()),
    }
}

fn lower_attrs(attrs: &[syn::Attribute]) -> Vec<Attribute> {
    attrs.iter().map(lower_attr).collect()
}

fn lower_ty(t: &syn::Type) -> Ty {
    match t {
        syn::Type::Path(p) => Ty::Path(lower_path(&p.path)),
        syn::Type::Reference(r) => Ty::Reference(Box::new(lower_ty(&r.elem))),
        _ => Ty::Other,
    }
}

fn lower_pat(p: &syn::Pat) -> Pat {
    match p {
        syn::Pat::Ident(i) => Pat::Ident(i.ident.to_string()),
        syn::Pat::Type(t) => Pat::Typed(Box::new(lower_pat(&t.pat))),
        _ => Pat::Other,
    }
}

fn lower_sig(sig: &syn::Signature) -> Signature {
    Signature {
        ident: sig.ident.to_string(),
        ident_line: sig.ident.span().start().line,
        fn_line: sig.fn_token.span().start().line,
        inputs: sig
            .inputs
            .iter()
            .map(|a| match a {
                syn::FnArg::Receiver(_) => FnArg { pat: Pat::Other, ty: Ty::Other },
                syn::FnArg::Typed(t) => FnArg { pat: lower_pat(&t.pat), ty: lower_ty(&t.ty) },
            })
            .collect(),
    }
}

fn lower_block(b: &syn::Block) -> Block {
    Block { stmts: b.stmts.iter().map(lower_stmt).collect(), end_line: b.span().end().line }
}

fn lower_stmt(s: &syn::Stmt) -> Stmt {
    match s {
        syn::Stmt::Local(l) => Stmt::Local {
            pat: lower_pat(&l.pat),
            init: l.init.as_ref().map(|i| Box::new(lower_expr(&i.expr))),
            diverge: l.init.as_ref().and_then(|i| i.diverge.as_ref().map(|(_, e)| Box::new(lower_expr(e)))),
        },
        syn::Stmt::Item(i) => Stmt::Item(lower_item(i)),
        syn::Stmt::Expr(e, _) => Stmt::Expr(lower_expr(e)),
        syn::Stmt::Macro(m) => Stmt::Expr(Expr::Macro(lower_macro(&m.mac))),
    }
}

fn token_kind(tt: &TokenTree) -> TokenKind {
    match tt {
        TokenTree::Punct(p) if p.as_char() == ',' => TokenKind::Comma,
        TokenTree::Group(_) => TokenKind::Group,
        _ => TokenKind::Other,
    }
}

fn token_kinds(tokens: &[TokenTree]) -> Vec<TokenKind> {
    tokens.iter().map(token_kind).collect()
}

/// The tokens before the first top-level comma of a macro's body (after unwrapping one
/// enclosing group), parsed as an expression.
fn first_macro_arg(tokens: &TokenStream) -> Option<syn::Expr> {
    let outer: Vec<TokenTree> = tokens.clone().into_iter().collect();
    let inner: Vec<TokenTree> = if is_single_group(&token_kinds(&outer)) {
        match &outer[0] {
            TokenTree::Group(g) => g.stream().into_iter().collect(),
            _ => Vec::new(),
        }
    } else {
        outer
    };
    let end = first_arg_end(&token_kinds(&inner));
    let first: TokenStream = inner.into_iter().take(end).collect();
    syn::parse2::<syn::Expr>(first).ok()
}

fn lower_macro(m: &syn::Macro) -> MacroCall {
    MacroCall { path: lower_path(&m.path), first_arg: first_macro_arg(&m.tokens).map(|e| Box::new(lower_expr(&e))) }
}

fn boxed(e: &syn::Expr) -> Box<Expr> {
    Box::new(lower_expr(e))
}

fn block_expr(b: &syn::Block) -> Expr {
    Expr::Block(lower_block(b))
}

fn lower_exprs<'a>(es: impl IntoIterator<Item = &'a syn::Expr>) -> Vec<Expr> {
    es.into_iter().map(lower_expr).collect()
}

fn lower_expr(e: &syn::Expr) -> Expr {
    match e {
        syn::Expr::Path(p) => Expr::Path(lower_path(&p.path)),
        syn::Expr::Lit(_) => Expr::Lit,
        syn::Expr::MethodCall(m) => {
            let start = m.method.span().start();
            Expr::MethodCall(MethodCall {
                receiver: boxed(&m.receiver),
                method: m.method.to_string(),
                args: lower_exprs(m.args.iter()),
                line: e.span().start().line,
                method_line: start.line,
                method_column: start.column,
                receiver_text: m.receiver.to_token_stream().to_string(),
            })
        }
        syn::Expr::Call(c) => Expr::Call { func: boxed(&c.func), args: lower_exprs(c.args.iter()) },
        syn::Expr::Field(f) => Expr::Field {
            base: boxed(&f.base),
            member: match &f.member {
                syn::Member::Named(id) => Some(id.to_string()),
                syn::Member::Unnamed(_) => None,
            },
        },
        syn::Expr::Paren(p) => Expr::Paren(boxed(&p.expr)),
        syn::Expr::Unary(u) => Expr::Unary { not: matches!(u.op, syn::UnOp::Not(_)), expr: boxed(&u.expr) },
        syn::Expr::Reference(r) => Expr::Reference(boxed(&r.expr)),
        syn::Expr::Binary(b) => Expr::Binary {
            left: boxed(&b.left),
            op: match b.op {
                syn::BinOp::Div(_) => BinOp::Div,
                syn::BinOp::DivAssign(_) => BinOp::DivAssign,
                syn::BinOp::Eq(_) => BinOp::Eq,
                syn::BinOp::Ne(_) => BinOp::Ne,
                _ => BinOp::Other,
            },
            right: boxed(&b.right),
            line: e.span().start().line,
        },
        syn::Expr::If(i) => Expr::If {
            cond: boxed(&i.cond),
            then_branch: lower_block(&i.then_branch),
            else_branch: i.else_branch.as_ref().map(|(_, e)| boxed(e)),
        },
        syn::Expr::While(w) => Expr::While { cond: boxed(&w.cond), body: lower_block(&w.body) },
        syn::Expr::Return(r) => Expr::Return(r.expr.as_ref().map(|e| boxed(e))),
        syn::Expr::Macro(m) => Expr::Macro(lower_macro(&m.mac)),
        syn::Expr::Block(b) => block_expr(&b.block),
        syn::Expr::Array(a) => Expr::Other(lower_exprs(a.elems.iter())),
        syn::Expr::Assign(a) => Expr::Other(vec![lower_expr(&a.left), lower_expr(&a.right)]),
        syn::Expr::Async(a) => Expr::Other(vec![block_expr(&a.block)]),
        syn::Expr::Await(a) => Expr::Other(vec![lower_expr(&a.base)]),
        syn::Expr::Break(b) => Expr::Other(b.expr.iter().map(|e| lower_expr(e)).collect()),
        syn::Expr::Cast(c) => Expr::Other(vec![lower_expr(&c.expr)]),
        syn::Expr::Closure(c) => Expr::Other(vec![lower_expr(&c.body)]),
        syn::Expr::Const(c) => Expr::Other(vec![block_expr(&c.block)]),
        syn::Expr::ForLoop(f) => Expr::Other(vec![lower_expr(&f.expr), block_expr(&f.body)]),
        syn::Expr::Group(g) => Expr::Other(vec![lower_expr(&g.expr)]),
        syn::Expr::Index(i) => Expr::Other(vec![lower_expr(&i.expr), lower_expr(&i.index)]),
        syn::Expr::Let(l) => Expr::Other(vec![lower_expr(&l.expr)]),
        syn::Expr::Loop(l) => Expr::Other(vec![block_expr(&l.body)]),
        syn::Expr::Match(m) => {
            let mut children = vec![lower_expr(&m.expr)];
            for arm in &m.arms {
                if let Some((_, g)) = &arm.guard {
                    children.push(lower_expr(g));
                }
                children.push(lower_expr(&arm.body));
            }
            Expr::Other(children)
        }
        syn::Expr::Range(r) => {
            Expr::Other(r.start.iter().chain(r.end.iter()).map(|e| lower_expr(e)).collect())
        }
        syn::Expr::RawAddr(r) => Expr::Other(vec![lower_expr(&r.expr)]),
        syn::Expr::Repeat(r) => Expr::Other(vec![lower_expr(&r.expr), lower_expr(&r.len)]),
        syn::Expr::Struct(s) => {
            let mut children: Vec<Expr> = s.fields.iter().map(|f| lower_expr(&f.expr)).collect();
            if let Some(rest) = &s.rest {
                children.push(lower_expr(rest));
            }
            Expr::Other(children)
        }
        syn::Expr::Try(t) => Expr::Other(vec![lower_expr(&t.expr)]),
        syn::Expr::TryBlock(t) => Expr::Other(vec![block_expr(&t.block)]),
        syn::Expr::Tuple(t) => Expr::Other(lower_exprs(t.elems.iter())),
        syn::Expr::Unsafe(u) => Expr::Other(vec![block_expr(&u.block)]),
        syn::Expr::Yield(y) => Expr::Other(y.expr.iter().map(|e| lower_expr(e)).collect()),
        _ => Expr::Other(Vec::new()),
    }
}

fn lower_impl(imp: &syn::ItemImpl) -> ItemImpl {
    ItemImpl {
        attrs: lower_attrs(&imp.attrs),
        self_ty: lower_ty(&imp.self_ty),
        line: imp.span().start().line,
        items: imp
            .items
            .iter()
            .map(|it| match it {
                syn::ImplItem::Fn(f) => ImplItem::Fn(ImplFn {
                    is_pub: matches!(f.vis, syn::Visibility::Public(_)),
                    sig: lower_sig(&f.sig),
                    block: lower_block(&f.block),
                    span_line: f.span().start().line,
                }),
                syn::ImplItem::Const(c) => ImplItem::Other(vec![lower_expr(&c.expr)]),
                _ => ImplItem::Other(Vec::new()),
            })
            .collect(),
    }
}

fn lower_item(it: &syn::Item) -> Item {
    match it {
        syn::Item::Mod(m) => Item::Mod {
            ident: m.ident.to_string(),
            attrs: lower_attrs(&m.attrs),
            content: m.content.as_ref().map(|(_, items)| items.iter().map(lower_item).collect()),
        },
        syn::Item::Struct(s) => Item::Struct { ident: s.ident.to_string(), attrs: lower_attrs(&s.attrs) },
        syn::Item::Impl(imp) => Item::Impl(lower_impl(imp)),
        syn::Item::Static(s) => Item::Static(ItemStatic {
            ident: s.ident.to_string(),
            line: s.ident.span().start().line,
            mutable: matches!(s.mutability, syn::StaticMutability::Mut(_)),
            expr: boxed(&s.expr),
        }),
        syn::Item::Fn(f) => Item::Fn { block: lower_block(&f.block) },
        syn::Item::Const(c) => Item::Other(vec![lower_expr(&c.expr)]),
        syn::Item::Enum(e) => Item::Other(
            e.variants.iter().filter_map(|v| v.discriminant.as_ref().map(|(_, d)| lower_expr(d))).collect(),
        ),
        syn::Item::Trait(t) => Item::Other(
            t.items
                .iter()
                .filter_map(|ti| match ti {
                    syn::TraitItem::Fn(f) => f.default.as_ref().map(block_expr),
                    syn::TraitItem::Const(c) => c.default.as_ref().map(|(_, e)| lower_expr(e)),
                    _ => None,
                })
                .collect(),
        ),
        _ => Item::Other(Vec::new()),
    }
}

/// Parses a snippet with the library and lowers it into the syntax model; a parse error
/// carries syn's message.
fn parse_file(src: &str) -> Result<SourceFile, syn::Error> {
    parse_and_lower(src, lower_file).map_err(|message| syn::Error::new(proc_macro2::Span::call_site(), message))
}

// ---- unprotected-admin

#[test]
fn flags_set_owner_without_auth() -> Result<(), syn::Error> {
    let file = parse_file(
        r#"

pub struct C;

#[contractimpl]
impl C {
pub fn set_owner(env: Env, owner: Address) {
    let _ = (env, owner);
}
}
"#,
    )?;
    let hits = UnprotectedAdminCheck::new().run(&file, "");
    assert_eq!(hits.len(), 1);
    assert_eq!(hits[0].severity, Severity::High);
    assert_eq!(hits[0].function_name, "set_owner");
    Ok(())
}

#[test]
fn passes_when_require_auth_present() -> Result<(), syn::Error> {
    let file = parse_file(
        r#"

pub struct C;

#[contractimpl]
impl C {
pub fn set_owner(env: Env, owner: Address) {
    env.require_auth();
    let _ = owner;
}
}
"#,
    )?;
    let hits = UnprotectedAdminCheck::new().run(&file, "");
    assert!(hits.is_empty());
    Ok(())
}

#[test]
fn passes_when_require_auth_for_args_present() -> Result<(), syn::Error> {
    let file = parse_file(
        r#"

pub struct C;

#[contractimpl]
impl C {
pub fn set_owner(env: Env, owner: Address) {
    env.require_auth_for_args((owner,));
}
}
"#,
    )?;
    let hits = UnprotectedAdminCheck::new().run(&file, "");
    assert!(hits.is_empty());
    Ok(())
}

#[test]
fn ignores_private_set_owner() -> Result<(), syn::Error> {
    let file = parse_file(
        r#"

pub struct C;

#[contractimpl]
impl C {
fn set_owner(env: Env, owner: Address) {
    let _ = (env, owner);
}
}
"#,
    )?;
    let hits = UnprotectedAdminCheck::new().run(&file, "");
    assert!(hits.is_empty());
    Ok(())
}

#[test]
fn flags_prefix_match_set_admin_fee() -> Result<(), syn::Error> {
    let file = parse_file(
        r#"

pub struct C;

#[contractimpl]
impl C {
pub fn set_admin_fee(env: Env, fee: i128) {
    let _ = (env, fee);
}
}
"#,
    )?;
    let hits = UnprotectedAdminCheck::new().run(&file, "");
    assert_eq!(hits.len(), 1);
    assert_eq!(hits[0].function_name, "set_admin_fee");
    Ok(())
}

#[test]
fn flags_prefix_match_pause_withdrawals() -> Result<(), syn::Error> {
    let file = parse_file(
        r#"

pub struct C;

#[contractimpl]
impl C {
pub fn pause_withdrawals(env: Env) {
    let _ = env;
}
}
"#,
    )?;
    let hits = UnprotectedAdminCheck::new().run(&file, "");
    assert_eq!(hits.len(), 1);
    assert_eq!(hits[0].function_name, "pause_withdrawals");
    Ok(())
}

#[test]
fn ignores_unrelated_public_fn() -> Result<(), syn::Error> {
    let file = parse_file(
        r#"

pub struct C;

#[contractimpl]
impl C {
pub fn hello(env: Env) {
    let _ = env;
}
}
"#,
    )?;
    let hits = UnprotectedAdminCheck::new().run(&file, "");
    assert!(hits.is_empty());
    Ok(())
}

#[test]
fn unrelated_if_after_storage_read_does_not_suppress() -> Result<(), syn::Error> {
    let file = parse_file(
        r#"

pub struct C;

#[contractimpl]
impl C {
pub fn set_admin(env: Env, new_admin: Address) {
    let x = env.storage().instance().get(&1).unwrap();
    if x > 0 { let _ = env; }
    env.storage().instance().set(&2, &new_admin);
}
}
"#,
    )?;
    let hits = UnprotectedAdminCheck::new().run(&file, "");
    assert_eq!(hits.len(), 1);
    assert_eq!(hits[0].function_name, "set_admin");
    Ok(())
}

#[test]
fn storage_read_compare_in_if_is_recognized_as_gate() -> Result<(), syn::Error> {
    let file = parse_file(
        r#"

pub struct C;

#[contractimpl]
impl C {
pub fn set_admin(env: Env, new_admin: Address) {
    let stored_admin: Address = env.storage().instance().get(&1).unwrap();
    if stored_admin == new_admin { panic!(); }
    env.storage().instance().set(&2, &new_admin);
}
}
"#,
    )?;
    let hits = UnprotectedAdminCheck::new().run(&file, "");
    assert!(hits.is_empty());
    Ok(())
}

// ---- missing-contract-annotation

fn run_annotations(src: &str) -> Vec<Finding> {
    let file = parse_file(src).expect("parse");
    MissingContractAnnotationCheck.run(&file, src)
}

#[test]
fn passes_when_contract_and_contractimpl_present() {
    let hits = run_annotations(r#"
#[contract]
pub struct MyContract;
#[contractimpl]
impl MyContract {
pub fn hello(_env: Env) {}
}
"#);
    assert!(hits.is_empty());
}

#[test]
fn flags_contractimpl_without_contract_struct() {
    let hits = run_annotations(r#"
pub struct MyContract;
#[contractimpl]
impl MyContract {
pub fn hello(_env: Env) {}
}
"#);
    assert_eq!(hits.len(), 1);
    assert_eq!(hits[0].severity, Severity::Low);
    assert_eq!(hits[0].check_name, "missing-contract-annotation");
    assert_eq!(hits[0].function_name, "MyContract");
}

#[test]
fn passes_when_no_contractimpl_at_all() {
    let hits = run_annotations(r#"
pub struct Foo;
impl Foo {
pub fn bar() {}
}
"#);
    assert!(hits.is_empty());
}

#[test]
fn flags_soroban_sdk_contractimpl_path() {
    let hits = run_annotations(r#"
pub struct MyContract;
#[soroban_sdk::contractimpl]
impl MyContract {
pub fn go(_env: soroban_sdk::Env) {}
}
"#);
    assert_eq!(hits.len(), 1);
    assert_eq!(hits[0].severity, Severity::Low);
}

#[test]
fn flags_contractimpl_in_nested_module_without_struct() {
    let hits = run_annotations(r#"
mod contract {
pub struct C;
#[contractimpl]
impl C {
    pub fn hello(_env: Env) {}
}
}
"#);
    assert_eq!(hits.len(), 1);
    assert_eq!(hits[0].function_name, "C");
}

#[test]
fn passes_when_contract_struct_in_nested_module() {
    let hits = run_annotations(r#"
mod contract {
#[contract]
pub struct C;
#[contractimpl]
impl C {
    pub fn hello(_env: Env) {}
}
}
"#);
    assert!(hits.is_empty());
}

// ---- missing-balance-check

// Helper: run the check and collect the reported line numbers.
fn finding_lines_balance(src: &str) -> Vec<usize> {
    let file = parse_file(src).unwrap();
    let mut hits = MissingBalanceCheck.run(&file, "");
    hits.sort_by_key(|f| f.line);
    hits.into_iter().map(|f| f.line).collect()
}

#[test]
fn no_finding_when_balance_check_precedes_transfer() {
    let src = r#"
#[contractimpl]
impl Token {
pub fn send(env: Env) {
    let token = token::Client::new(&env, &id);
    let bal = token.balance(&sender);
    token.transfer(&sender, &recv, &amount);
}
}
"#;
    assert!(finding_lines_balance(src).is_empty());
}

#[test]
fn finding_when_no_balance_check() {
    let src = r#"
#[contractimpl]
impl Token {
pub fn send(env: Env) {
    let token = token::Client::new(&env, &id);
    token.transfer(&sender, &recv, &amount);
}
}
"#;
    assert_eq!(finding_lines_balance(src).len(), 1);
}

/// Regression test for #364: two transfers in one function, only the first
/// is balance-guarded.  A finding must be emitted for the second transfer.
#[test]
fn second_unguarded_transfer_is_flagged_when_first_is_guarded() {
    let src = r#"
#[contractimpl]
impl Token {
pub fn double_send(env: Env) {
    let token = token::Client::new(&env, &id);

    // First transfer: guarded — should NOT produce a finding.
    let bal = token.balance(&sender);
    token.transfer(&sender, &recv, &amount);

    // Second transfer: no balance check before it — MUST produce a finding.
    token.transfer(&sender, &recv2, &amount2);
}
}
"#;
    let lines = finding_lines_balance(src);
    assert_eq!(lines.len(), 1, "only the second (unguarded) transfer should be flagged; got lines: {lines:?}");
}

/// Both transfers unguarded → two findings.
#[test]
fn both_unguarded_transfers_flagged() {
    let src = r#"
#[contractimpl]
impl Token {
pub fn double_send(env: Env) {
    let token = token::Client::new(&env, &id);
    token.transfer(&sender, &recv, &amount);
    token.transfer(&sender, &recv2, &amount2);
}
}
"#;
    let lines = finding_lines_balance(src);
    assert_eq!(lines.len(), 2, "both unguarded transfers should be flagged; got lines: {lines:?}");
}

/// #403 false positive: a non-token `transfer` method on an unrelated type.
#[test]
fn ignores_transfer_on_non_token_receiver() {
    let src = r#"
#[contractimpl]
impl C {
pub fn transfer_ownership(env: Env, new_owner: Address) {
    self.ownership.transfer(&new_owner);
}
}
"#;
    assert!(finding_lines_balance(src).is_empty());
}

/// #403 false negative: an unrelated `.balance()` must not silence a real finding.
#[test]
fn unrelated_balance_does_not_suppress_finding() {
    let src = r#"
#[contractimpl]
impl C {
pub fn payout(env: Env, to: Address, amount: i128) {
    let token = token::Client::new(&env, &id);
    let _ = self.ledger.balance();
    token.transfer(&from, &to, &amount);
}
}
"#;
    assert_eq!(finding_lines_balance(src).len(), 1);
}

/// #403 precision: a balance check and the transfer on the same source line.
#[test]
fn same_line_balance_check_counts_as_preceding() {
    let src = r#"
#[contractimpl]
impl C {
pub fn send(env: Env) {
    let token = token::Client::new(&env, &id);
    if token.balance(&sender) >= amount { token.transfer(&sender, &recv, &amount); }
}
}
"#;
    assert!(finding_lines_balance(src).is_empty());
}

// ---- mutable-global-state

#[test]
fn flags_static_mut() {
    let file = parse_file("static mut COUNT: u32 = 0;").unwrap();
    let hits = MutableGlobalStateCheck.run(&file, "");
    assert_eq!(hits.len(), 1);
    assert_eq!(hits[0].severity, Severity::High);
    assert!(hits[0].description.contains("COUNT"));
}

#[test]
fn ignores_immutable_static() {
    let file = parse_file("static COUNT: u32 = 0;").unwrap();
    let hits = MutableGlobalStateCheck.run(&file, "");
    assert!(hits.is_empty());
}

#[test]
fn flags_static_mut_inside_contractimpl_method() {
    let src = r#"
#[contractimpl]
impl MyContract {
pub fn risky(_env: Env) {
    static mut COUNTER: u32 = 0;
    unsafe { COUNTER += 1; }
}
}
"#;
    let file = parse_file(src).unwrap();
    let hits = MutableGlobalStateCheck.run(&file, "");
    assert_eq!(hits.len(), 1, "should flag local static mut inside impl method");
    assert!(hits[0].description.contains("COUNTER"));
    assert_eq!(hits[0].severity, Severity::High);
}

#[test]
fn ignores_static_mut_inside_cfg_test_module() {
    let src = r#"
#[cfg(test)]
mod tests {
static mut COUNTER: u32 = 0;
}
"#;
    let file = parse_file(src).unwrap();
    let hits = MutableGlobalStateCheck.run(&file, "");
    assert!(hits.is_empty(), "should not flag static mut inside #[cfg(test)] module");
}

#[test]
fn ignores_static_mut_inside_module_named_tests() {
    let src = r#"
mod tests {
static mut COUNTER: u32 = 0;
}
"#;
    let file = parse_file(src).unwrap();
    let hits = MutableGlobalStateCheck.run(&file, "");
    assert!(hits.is_empty(), "should not flag static mut inside module named `tests`");
}

// ---- re-initialization-risk

fn run_reinit(src: &str) -> Vec<Finding> {
    let file = parse_file(src).expect("parse");
    ReInitializationRiskCheck.run(&file, src)
}

#[test]
fn flags_init_with_unrelated_is_some_and_unconditional_write() {
    let hits = run_reinit(r#"
pub struct C;
#[contractimpl]
impl C {
pub fn initialize(env: Env, admin: Address, referrer: Option<Address>) {
    if referrer.is_some() {
        // unrelated referral logic
    }
    env.storage().instance().set(&0, &admin);
}
}
"#);
    assert_eq!(hits.len(), 1);
    assert_eq!(hits[0].check_name, "re-initialization-risk");
}

#[test]
fn passes_when_storage_has_guard_gates_write() {
    let hits = run_reinit(r#"
pub struct C;
#[contractimpl]
impl C {
pub fn initialize(env: Env, admin: Address) {
    if env.storage().instance().has(&0) {
        panic!("already initialized");
    }
    env.storage().instance().set(&0, &admin);
}
}
"#);
    assert!(hits.is_empty());
}

#[test]
fn flags_init_when_has_result_is_ignored_not_gating_write() {
    let hits = run_reinit(r#"
pub struct C;
#[contractimpl]
impl C {
pub fn init(env: Env, admin: Address) {
    let _present = env.storage().instance().has(&0);
    env.storage().instance().set(&0, &admin);
}
}
"#);
    assert_eq!(hits.len(), 1);
}

#[test]
fn flags_init_when_require_only_validates_unrelated_input() {
    let hits = run_reinit(r#"
pub struct C;
#[contractimpl]
impl C {
pub fn initialize(env: Env, admin: Address, fee: i128) {
    require!(fee >= 0, "bad fee");
    env.storage().instance().set(&0, &admin);
}
}
"#);
    assert_eq!(hits.len(), 1);
}

#[test]
fn passes_when_require_guard_checks_storage_presence() {
    let hits = run_reinit(r#"
pub struct C;
#[contractimpl]
impl C {
pub fn initialize(env: Env, admin: Address) {
    require!(!env.storage().instance().has(&0), "already initialized");
    env.storage().instance().set(&0, &admin);
}
}
"#);
    assert!(hits.is_empty());
}

#[test]
fn flags_init_without_any_guard() {
    let hits = run_reinit(r#"
pub struct C;
#[contractimpl]
impl C {
pub fn initialize(env: Env, admin: Address) {
    env.storage().instance().set(&0, &admin);
}
}
"#);
    assert_eq!(hits.len(), 1);
}

// ---- self-transfer

#[test]
fn flags_transfer_without_guard() -> Result<(), syn::Error> {
    let file = parse_file(
        r#"

pub struct C;

#[contractimpl]
impl C {
pub fn transfer(env: Env, from: Address, to: Address, amount: i128) {
    from.require_auth();
    let _ = (env, amount);
}
}
"#,
    )?;
    let hits = SelfTransferCheck.run(&file, "");
    assert_eq!(hits.len(), 1);
    assert_eq!(hits[0].severity, Severity::Medium);
    assert_eq!(hits[0].function_name, "transfer");
    Ok(())
}

#[test]
fn passes_transfer_with_from_ne_to() -> Result<(), syn::Error> {
    let file = parse_file(
        r#"

pub struct C;

#[contractimpl]
impl C {
pub fn transfer(env: Env, from: Address, to: Address, amount: i128) {
    if from != to {
        from.require_auth();
        let _ = (env, amount);
    }
}
}
"#,
    )?;
    let hits = SelfTransferCheck.run(&file, "");
    assert!(hits.is_empty());
    Ok(())
}

#[test]
fn passes_transfer_with_from_eq_to_panic() -> Result<(), syn::Error> {
    let file = parse_file(
        r#"

pub struct C;

#[contractimpl]
impl C {
pub fn transfer(env: Env, from: Address, to: Address, amount: i128) {
    if from == to {
        panic!("self-transfer");
    }
    from.require_auth();
    let _ = (env, amount);
}
}
"#,
    )?;
    let hits = SelfTransferCheck.run(&file, "");
    assert!(hits.is_empty());
    Ok(())
}

#[test]
fn ignores_non_transfer_fn() -> Result<(), syn::Error> {
    let file = parse_file(
        r#"

pub struct C;

#[contractimpl]
impl C {
pub fn do_thing(env: Env) {
    let _ = env;
}
}
"#,
    )?;
    let hits = SelfTransferCheck.run(&file, "");
    assert!(hits.is_empty());
    Ok(())
}

#[test]
fn flags_transfer_from_without_guard() -> Result<(), syn::Error> {
    let file = parse_file(
        r#"

pub struct C;

#[contractimpl]
impl C {
pub fn transfer_from(env: Env, spender: Address, from: Address, to: Address, amount: i128) {
    spender.require_auth();
    let _ = (env, from, to, amount);
}
}
"#,
    )?;
    let hits = SelfTransferCheck.run(&file, "");
    assert_eq!(hits.len(), 1);
    assert_eq!(hits[0].function_name, "transfer_from");
    Ok(())
}

#[test]
fn passes_transfer_with_from_addr_ne_to_addr() -> Result<(), syn::Error> {
    let file = parse_file(
        r#"

pub struct C;

#[contractimpl]
impl C {
pub fn transfer(env: Env, from_addr: Address, to_addr: Address, amount: i128) {
    if from_addr != to_addr {
        from_addr.require_auth();
        let _ = (env, amount);
    }
}
}
"#,
    )?;
    let hits = SelfTransferCheck.run(&file, "");
    assert!(hits.is_empty());
    Ok(())
}

#[test]
fn passes_transfer_with_from_ne_method_call() -> Result<(), syn::Error> {
    let file = parse_file(
        r#"

pub struct C;

#[contractimpl]
impl C {
pub fn transfer(env: Env, from: Address, to: Address, amount: i128) {
    if from.ne(&to) {
        from.require_auth();
        let _ = (env, amount);
    }
}
}
"#,
    )?;
    let hits = SelfTransferCheck.run(&file, "");
    assert!(hits.is_empty());
    Ok(())
}

#[test]
fn passes_transfer_with_field_access_guard() -> Result<(), syn::Error> {
    let file = parse_file(
        r#"

pub struct Tx {
from: Address,
to: Address,
}

pub struct C;

#[contractimpl]
impl C {
pub fn transfer(env: Env, tx: Tx, amount: i128) {
    if tx.from != tx.to {
        tx.from.require_auth();
        let _ = (env, amount);
    }
}
}
"#,
    )?;
    let hits = SelfTransferCheck.run(&file, "");
    assert!(hits.is_empty());
    Ok(())
}

#[test]
fn flags_noop_comparison_that_does_not_gate_transfer() -> Result<(), syn::Error> {
    let file = parse_file(
        r#"

pub struct C;

#[contractimpl]
impl C {
pub fn transfer(env: Env, from: Address, to: Address, amount: i128) {
    from.require_auth();
    let _unused = from == to;
    do_actual_transfer(&env, &from, &to, amount);
}
}
"#,
    )?;
    let hits = SelfTransferCheck.run(&file, "");
    assert_eq!(hits.len(), 1);
    Ok(())
}

// ---- unchecked-divisor

#[test]
fn flags_non_literal_divisor() -> Result<(), syn::Error> {
    let src = r#"
#[contractimpl]
impl C {
pub fn divide(a: u128, b: u128) -> u128 {
    a / b
}
}
    "#;
    let file = parse_file(src)?;
    let check = UncheckedDivisorCheck;
    let findings = check.run(&file, src);
    assert_eq!(findings.len(), 1);
    assert_eq!(findings[0].check_name, "unchecked-divisor");
    assert!(findings[0]
        .description
        .contains("not validated to be non-zero"));
    Ok(())
}

#[test]
fn flags_divide_assign() -> Result<(), syn::Error> {
    let src = r#"
#[contractimpl]
impl C {
pub fn divide_assign(mut a: u128, b: u128) {
    a /= b;
}
}
    "#;
    let file = parse_file(src)?;
    let check = UncheckedDivisorCheck;
    let findings = check.run(&file, src);
    assert_eq!(findings.len(), 1);
    Ok(())
}

#[test]
fn ignores_literal_divisor() -> Result<(), syn::Error> {
    let src = r#"
#[contractimpl]
impl C {
pub fn divide(a: u128) -> u128 {
    a / 2
}
}
    "#;
    let file = parse_file(src)?;
    let check = UncheckedDivisorCheck;
    let findings = check.run(&file, src);
    assert_eq!(findings.len(), 0);
    Ok(())
}

// ---- unprotected-upgrade

#[test]
fn flags_unprotected_upgrade() -> Result<(), syn::Error> {
    let src = r#"
#[contractimpl]
impl C {
pub fn upgrade(env: Env, new_code: Bytes) {
    env.invoke_wasm(&new_code);
}
}
    "#;
    let file = parse_file(src)?;
    let check = UnprotectedUpgradeCheck;
    let findings = check.run(&file, src);
    assert_eq!(findings.len(), 1);
    assert_eq!(findings[0].check_name, "unprotected-upgrade");
    Ok(())
}

#[test]
fn ignores_protected_migrate() -> Result<(), syn::Error> {
    let src = r#"
#[contractimpl]
impl C {
pub fn migrate(env: Env, new_code: Bytes) {
    env.require_auth();
    env.invoke_wasm(&new_code);
}
}
    "#;
    let file = parse_file(src)?;
    let check = UnprotectedUpgradeCheck;
    let findings = check.run(&file, src);
    assert_eq!(findings.len(), 0);
    Ok(())
}

#[test]
fn ignores_unrelated_require_auth_on_address() -> Result<(), syn::Error> {
    let src = r#"
#[contractimpl]
impl C {
pub fn upgrade(env: Env, to: Address, new_code: Bytes) {
    to.require_auth();
    env.invoke_wasm(&new_code);
}
}
    "#;
    let file = parse_file(src)?;
    let check = UnprotectedUpgradeCheck;
    let findings = check.run(&file, src);
    assert_eq!(findings.len(), 1);
    Ok(())
}

#[test]
fn flags_auth_after_invoke_wasm() -> Result<(), syn::Error> {
    let src = r#"
#[contractimpl]
impl C {
pub fn upgrade(env: Env, new_code: Bytes) {
    env.invoke_wasm(&new_code);
    env.require_auth();
}
}
    "#;
    let file = parse_file(src)?;
    let check = UnprotectedUpgradeCheck;
    let findings = check.run(&file, src);
    assert_eq!(findings.len(), 1);
    Ok(())
}

#[test]
fn passes_when_stored_admin_require_auth_precedes_upgrade() -> Result<(), syn::Error> {
    let src = r#"
#[contractimpl]
impl C {
pub fn upgrade(env: Env, new_code: Bytes) {
    let admin: Address = env.storage().instance().get(&0).unwrap();
    admin.require_auth();
    env.invoke_wasm(&new_code);
}
}
    "#;
    let file = parse_file(src)?;
    let check = UnprotectedUpgradeCheck;
    let findings = check.run(&file, src);
    assert!(findings.is_empty());
    Ok(())
}

// ---- unbounded-vec-growth

fn run_vec_growth(src: &str) -> Vec<Finding> {
    let file = parse_file(src).expect("parse");
    UnboundedVecGrowthCheck.run(&file, src)
}

#[test]
fn flags_unbounded_push_despite_unrelated_len_call() {
    let hits = run_vec_growth(r#"
pub struct C;
#[contractimpl]
impl C {
pub fn add(env: Env, other: Vec<u32>) {
    let mut entries: Vec<u32> = env.storage().instance().get(&0).unwrap().unwrap();
    entries.push(1u32);
    let _ = other.len();
    env.storage().instance().set(&0, &entries);
}
}
"#);
    assert_eq!(hits.len(), 1);
    assert_eq!(hits[0].check_name, "unbounded-vec-growth");
}

#[test]
fn passes_when_len_check_targets_pushed_receiver() {
    let hits = run_vec_growth(r#"
pub struct C;
#[contractimpl]
impl C {
pub fn add(env: Env, max: u32) {
    let mut entries: Vec<u32> = env.storage().instance().get(&0).unwrap().unwrap();
    entries.push(1u32);
    if entries.len() >= max {
        panic!("capacity exceeded");
    }
    env.storage().instance().set(&0, &entries);
}
}
"#);
    assert!(hits.is_empty());
}

#[test]
fn flags_when_no_length_check_at_all() {
    let hits = run_vec_growth(r#"
pub struct C;
#[contractimpl]
impl C {
pub fn add(env: Env) {
    let mut entries: Vec<u32> = env.storage().instance().get(&0).unwrap().unwrap();
    entries.push(1u32);
    env.storage().instance().set(&0, &entries);
}
}
"#);
    assert_eq!(hits.len(), 1);
}

#[test]
fn does_not_flag_unrelated_get_local_push_and_set() {
    let hits = run_vec_growth(r#"
use soroban_sdk::{contractimpl, Env, Vec};
pub struct C;
#[contractimpl]
impl C {
    pub fn record(env: Env, amount: i128) {
        let fee: i128 = env.storage().instance().get(&1).unwrap_or(0);
        let mut scratch: Vec<i128> = Vec::new(&env);
        scratch.push_back(amount - fee);
        env.storage().instance().set(&2, &amount);
    }
}
"#);
    assert!(hits.is_empty());
}

#[test]
fn flags_when_same_binding_flows_get_push_set() {
    let hits = run_vec_growth(r#"
use soroban_sdk::{contractimpl, Env, Vec};
pub struct C;
#[contractimpl]
impl C {
    pub fn record(env: Env, amount: i128) {
        let mut history: Vec<i128> = env.storage().persistent().get(&1).unwrap_or(Vec::new(&env));
        history.push_back(amount);
        env.storage().persistent().set(&1, &history);
    }
}
"#);
    assert_eq!(hits.len(), 1);
    assert_eq!(hits[0].line, 8);
}

#[test]
fn write_back_through_an_alias_is_not_flagged() {
    let hits = run_vec_growth(r#"
use soroban_sdk::{contractimpl, Env, Vec};
pub struct C;
#[contractimpl]
impl C {
    pub fn record(env: Env, amount: i128) {
        let mut a: Vec<i128> = env.storage().persistent().get(&1).unwrap();
        a.push_back(amount);
        let b = a;
        env.storage().persistent().set(&1, &b);
    }
}
"#);
    assert!(hits.is_empty());
}

#[test]
fn rebinding_to_a_fresh_value_clears_the_storage_read() {
    let hits = run_vec_growth(r#"
use soroban_sdk::{contractimpl, Env, Vec};
pub struct C;
#[contractimpl]
impl C {
    pub fn record(env: Env, amount: i128) {
        let mut v: Vec<i128> = env.storage().persistent().get(&1).unwrap();
        let mut v: Vec<i128> = Vec::new(&env);
        v.push_back(amount);
        env.storage().persistent().set(&1, &v);
    }
}
"#);
    assert!(hits.is_empty());
}

// ---- every built-in check attaches a suggestion

/// Runs the default check named `check_name` on `src`, asserts it reports something and
/// that every finding carries a suggestion.
fn assert_check_has_suggestion(check_name: &str, src: &str) {
    let file = parse_file(src).expect("test snippet should parse as valid Rust");
    let checks = default_checks();
    let check = checks
        .iter()
        .find(|c| c.name() == check_name)
        .unwrap_or_else(|| panic!("check `{check_name}` not found in default_checks()"));

    let findings: Vec<Finding> = check.run(&file, src);
    assert!(
        !findings.is_empty(),
        "check `{check_name}` produced no findings — update the test snippet so it actually triggers the check"
    );
    for f in &findings {
        assert!(
            f.suggestion.is_some(),
            "check `{check_name}` emitted a Finding with suggestion=None:\n{f:#?}"
        );
    }
}

#[test]
fn unprotected_admin_has_suggestion() {
    assert_check_has_suggestion(
        "unprotected-admin",
        r#"
use soroban_sdk::{contractimpl, Address, Env};
pub struct C;
#[contractimpl]
impl C {
    pub fn set_owner(env: Env, owner: Address) { let _ = (env, owner); }
}
"#,
    );
}

#[test]
fn missing_contract_annotation_has_suggestion() {
    assert_check_has_suggestion(
        "missing-contract-annotation",
        r#"
use soroban_sdk::{contractimpl, Env};
pub struct MyContract;
#[contractimpl]
impl MyContract {
    pub fn hello(_env: Env) {}
}
"#,
    );
}

#[test]
fn self_transfer_has_suggestion() {
    assert_check_has_suggestion(
        "self-transfer",
        r#"
use soroban_sdk::{contractimpl, Address, Env};
pub struct C;
#[contractimpl]
impl C {
    pub fn transfer(env: Env, from: Address, to: Address, amount: i128) {
        from.require_auth();
        let _ = (env, to, amount);
    }
}
"#,
    );
}

#[test]
fn mutable_global_state_has_suggestion() {
    assert_check_has_suggestion(
        "mutable-global-state",
        r#"
static mut COUNTER: u32 = 0;
pub struct C;
"#,
    );
}

#[test]
fn re_initialization_risk_has_suggestion() {
    assert_check_has_suggestion(
        "re-initialization-risk",
        r#"
use soroban_sdk::{contractimpl, Env, Symbol};
pub struct C;
#[contractimpl]
impl C {
    pub fn init(env: Env, v: u32) {
        env.storage().instance().set(&Symbol::new(&env, "k"), &v);
    }
}
"#,
    );
}

#[test]
fn missing_balance_check_has_suggestion() {
    assert_check_has_suggestion(
        "missing-balance-check",
        r#"
use soroban_sdk::{contractimpl, Env, Address};
#[contractimpl]
impl Token {
    pub fn pay(env: Env, id: Address, sender: Address, recipient: Address, amount: i128) {
        let token = token::Client::new(&env, &id);
        token.transfer(&sender, &recipient, &amount);
    }
}
"#,
    );
}

#[test]
fn unbounded_vec_growth_has_suggestion() {
    assert_check_has_suggestion(
        "unbounded-vec-growth",
        r#"
use soroban_sdk::{contractimpl, Env, Symbol};
pub struct C;
#[contractimpl]
impl C {
    pub fn append(env: Env, item: u32) {
        let mut v: Vec<u32> = env.storage().instance().get(&Symbol::new(&env, "list")).unwrap_or_default();
        v.push(item);
        env.storage().instance().set(&Symbol::new(&env, "list"), &v);
    }
}
"#,
    );
}

#[test]
fn unchecked_divisor_has_suggestion() {
    assert_check_has_suggestion(
        "unchecked-divisor",
        r#"
#[contractimpl]
impl C {
    pub fn divide(a: u128, b: u128) -> u128 { a / b }
}
"#,
    );
}

#[test]
fn unprotected_upgrade_has_suggestion() {
    assert_check_has_suggestion(
        "unprotected-upgrade",
        r#"
#[contractimpl]
impl C {
    pub fn upgrade(env: Env, new_code: Bytes) {
        env.deployer().upload_contract_wasm(&new_code);
    }
}
"#,
    );
}

// ---- suppression comments and the per-file pipeline

use soroban_guard::analyzer::run_checks_for_file;
use soroban_guard::suppress::{function_name_from_line, parse_allow_checks};

fn chars(s: &str) -> Vec<char> {
    s.chars().collect()
}

#[test]
fn allow_comment_lists_check_names() {
    assert_eq!(
        parse_allow_checks(&chars("   // soroban-guard: allow(self-transfer, unchecked-divisor ,)")),
        Some(vec!["self-transfer".to_string(), "unchecked-divisor".to_string()])
    );
    assert_eq!(parse_allow_checks(&chars("// soroban-guard: allow( , )")), None);
    assert_eq!(parse_allow_checks(&chars("// soroban-guard: allow(a")), None);
    assert_eq!(parse_allow_checks(&chars("// allow(a)")), None);
}

#[test]
fn declared_function_name() {
    assert_eq!(function_name_from_line(&chars("    pub fn set_owner(env: Env) {")), Some("set_owner".to_string()));
    assert_eq!(function_name_from_line(&chars("let x = 1;")), None);
    assert_eq!(function_name_from_line(&chars("fn (")), None);
}

const ADMIN_SRC: &str = r#"
use soroban_sdk::{contractimpl, Address, Env};

pub struct C;

#[contractimpl]
impl C {
    pub fn set_owner(env: Env, owner: Address) {
        let _ = (env, owner);
    }
}
"#;

const ADMIN_SUPPRESSED_SRC: &str = r#"
use soroban_sdk::{contractimpl, Address, Env};

pub struct C;

#[contractimpl]
impl C {
    // soroban-guard: allow(unprotected-admin)
    pub fn set_owner(env: Env, owner: Address) {
        let _ = (env, owner);
    }
}
"#;

#[test]
fn function_suppression_silences_that_method() {
    let checks = vec![UnprotectedAdminCheck::new()];
    let file = parse_file(ADMIN_SRC).unwrap();
    let hits = run_checks_for_file(&file, ADMIN_SRC, "src/lib.rs", &checks);
    assert_eq!(hits.len(), 1);
    assert_eq!(hits[0].file_path, "src/lib.rs");
    assert_eq!(hits[0].check_name, "unprotected-admin");
    assert_eq!(hits[0].line, 8);

    let file = parse_file(ADMIN_SUPPRESSED_SRC).unwrap();
    let hits = run_checks_for_file(&file, ADMIN_SUPPRESSED_SRC, "src/lib.rs", &checks);
    assert!(hits.is_empty());
}

#[test]
fn line_suppression_silences_the_next_line() {
    let src = r#"
#[contractimpl]
impl C {
    pub fn divide(a: u128, b: u128) -> u128 {
        // soroban-guard: allow(unchecked-divisor)
        a / b
    }
    pub fn divide2(a: u128, b: u128) -> u128 {
        a / b
    }
}
"#;
    let checks = vec![UncheckedDivisorCheck];
    let file = parse_file(src).unwrap();
    let hits = run_checks_for_file(&file, src, "lib.rs", &checks);
    let lines: Vec<(String, usize)> = hits.iter().map(|f| (f.check_name.clone(), f.line)).collect();
    assert_eq!(lines, vec![("unchecked-divisor".to_string(), 9)]);
}

#[test]
fn function_suppression_is_scoped_to_its_impl_block() {
    let src = r#"
use soroban_sdk::{contractimpl, Address, Env};

pub struct A;
pub struct B;

#[contractimpl]
impl A {
    // soroban-guard: allow(unprotected-admin)
    pub fn set_owner(env: Env, owner: Address) {
        let _ = (env, owner);
    }
}

#[contractimpl]
impl B {
    pub fn set_owner(env: Env, owner: Address) {
        let _ = (env, owner);
    }
}
"#;
    let checks = vec![UnprotectedAdminCheck::new()];
    let file = parse_file(src).unwrap();
    let hits = run_checks_for_file(&file, src, "src/lib.rs", &checks);
    assert_eq!(hits.len(), 1);
    assert_eq!(hits[0].line, 17);
}

#[test]
fn extra_sensitive_names_add_findings() {
    let src = r#"
use soroban_sdk::{contractimpl, Env};
pub struct C;
#[contractimpl]
impl C {
    pub fn rotate_keys(env: Env) {
        let _ = env;
    }
}
"#;
    let file = parse_file(src).unwrap();
    assert!(UnprotectedAdminCheck::new().run(&file, src).is_empty());
    assert!(UnprotectedAdminCheck::default().run(&file, src).is_empty());
    let hits = UnprotectedAdminCheck::with_extra_names(vec!["rotate_keys".to_string()]).run(&file, src);
    assert_eq!(hits.len(), UnprotectedAdminCheck::new().run(&file, src).len() + 1);
    assert_eq!(hits[0].function_name, "rotate_keys");
}

#[test]
fn every_default_check_reports_under_its_own_name() {
    let src = r#"
use soroban_sdk::{contractimpl, Address, Env};
static mut COUNTER: u32 = 0;
pub struct C;
#[contractimpl]
impl C {
    pub fn set_owner(env: Env, owner: Address) {
        let _ = (env, owner);
    }
    pub fn divide(a: u128, b: u128) -> u128 {
        a / b
    }
}
"#;
    let file = parse_file(src).unwrap();
    let mut total = 0;
    for check in default_checks() {
        for f in check.run(&file, src) {
            assert_eq!(f.check_name, check.name());
            total += 1;
        }
    }
    assert!(total >= 4);
}

// ---- from source text to findings

#[test]
fn scan_source_labels_findings_with_the_file_label() {
    let source = "#[contractimpl]\nimpl C {\npub fn set_owner(env: Env, owner: Address) {\n    let _ = (env, owner);\n}\n}\n";
    let findings =
        scan_source(source, "/work/src/lib.rs", "src/lib.rs", &default_checks(), lower_file).ok().unwrap();
    assert!(!findings.is_empty());
    assert!(findings.iter().all(|f| f.file_path == "src/lib.rs"));
    let admin: Vec<&Finding> = findings.iter().filter(|f| f.check_name == "unprotected-admin").collect();
    assert_eq!(admin.len(), 1);
    assert_eq!(admin[0].function_name, "set_owner");
    assert_eq!(admin[0].line, 3);
}

#[test]
fn scan_source_reports_parse_error_with_path() {
    let result = scan_source("pub fn broken( {", "/work/src/bad.rs", "src/bad.rs", &default_checks(), lower_file);
    match result {
        Err(ScanError::Parse { path, message }) => {
            assert_eq!(path, "/work/src/bad.rs");
            assert!(!message.is_empty());
        }
        _ => panic!("expected a parse error"),
    }
}

#[test]
fn scan_source_honours_suppression_comment() {
    let source = "#[contractimpl]\nimpl C {\n// soroban-guard: allow(unprotected-admin)\npub fn set_owner(env: Env, owner: Address) {\n    let _ = (env, owner);\n}\n}\n";
    let findings = scan_source(source, "lib.rs", "lib.rs", &default_checks(), lower_file).ok().unwrap();
    assert!(findings.iter().all(|f| f.check_name != "unprotected-admin"));
}

#[test]
fn parse_and_lower_error_is_syns_message() {
    let ours = parse_and_lower("fn (", lower_file).err().unwrap();
    let syns = syn::parse_file("fn (").err().unwrap().to_string();
    assert_eq!(ours, syns);
}

#[test]
fn first_argument_ends_at_first_top_level_comma() {
    assert_eq!(first_arg_end(&vec![TokenKind::Other, TokenKind::Other, TokenKind::Comma, TokenKind::Other]), 2);
    assert_eq!(first_arg_end(&vec![TokenKind::Group, TokenKind::Comma]), 1);
    assert_eq!(first_arg_end(&vec![TokenKind::Comma, TokenKind::Other]), 0);
    assert_eq!(first_arg_end(&vec![TokenKind::Other, TokenKind::Group, TokenKind::Other]), 3);
    assert_eq!(first_arg_end(&Vec::new()), 0);
}

#[test]
fn single_group_body_is_unwrapped() {
    assert!(is_single_group(&vec![TokenKind::Group]));
    assert!(!is_single_group(&vec![TokenKind::Group, TokenKind::Comma, TokenKind::Other]));
    assert!(!is_single_group(&vec![TokenKind::Other]));
    assert!(!is_single_group(&Vec::new()));
}
