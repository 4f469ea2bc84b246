//! Token transfer functions that do not guard against `from == to`.
//!
//! Fee-on-transfer and rebasing token designs can be exploited when a transfer sender and
//! recipient are the same address. This heuristic flags `#[contractimpl]` methods whose
//! name contains "transfer" and whose body lacks an explicit sender-recipient comparison
//! in a position that gates execution.
use vstd::prelude::*;
use crate::finding::{findings_view, lemma_findings_view_push, Check, Finding, FindingView, Severity};
use crate::syntax::{BinOp, Block, Expr, ImplFn, ImplItem, Item, ItemImpl, SourceFile, Stmt};
use crate::text::{chars_of, lowercase, occurs_at, occurs_at_exec, str_contains, str_eq, to_lowercase, contains_text};
use crate::util::{contract_methods, contractimpl_functions_with_type_excluding_test, views};

verus! {

pub open spec fn from_keys() -> Seq<Seq<char>> {
    seq!["from"@, "sender"@, "source"@, "spender"@]
}

pub open spec fn to_keys() -> Seq<Seq<char>> {
    seq!["to"@, "recipient"@, "dest"@, "destination"@]
}

/// Identifiers an expression is built from: plain paths, method names (after their
/// receivers), named fields (before their bases), callees, and what parentheses, unary
/// operators and references wrap.
pub open spec fn collect_idents_spec(e: Expr) -> Seq<Seq<char>>
    decreases e,
{
    match e {
        Expr::Path(p) => match p.ident_of() {
            Some(id) => seq![id],
            None => Seq::empty(),
        },
        Expr::MethodCall(m) => collect_idents_spec(*m.receiver).push(m.method@),
        Expr::Field { base, member } => match member {
            Some(n) => seq![n@] + collect_idents_spec(*base),
            None => collect_idents_spec(*base),
        },
        Expr::Call { func, args } => collect_idents_spec(*func),
        Expr::Paren(x) => collect_idents_spec(*x),
        Expr::Unary { not, expr } => collect_idents_spec(*expr),
        Expr::Reference(x) => collect_idents_spec(*x),
        _ => Seq::empty(),
    }
}

fn collect_idents_rec(e: &Expr, acc: &mut Vec<String>)
    ensures
        views(final(acc)@) == views(old(acc)@) + collect_idents_spec(*e),
    decreases e,
{
    let ghost start = views(acc@);
    match e {
        Expr::Path(p) => {
            if let Some(id) = p.get_ident() {
                acc.push(id.clone());
                assert(views(acc@) =~= start + collect_idents_spec(*e));
            } else {
                assert(views(acc@) =~= start + collect_idents_spec(*e));
            }
        },
        Expr::MethodCall(m) => {
            collect_idents_rec(&m.receiver, acc);
            let ghost mid = views(acc@);
            acc.push(m.method.clone());
            assert(views(acc@) =~= mid.push(m.method@));
            assert(views(acc@) =~= start + collect_idents_spec(*e));
        },
        Expr::Field { base, member } => {
            if let Some(n) = member {
                acc.push(n.clone());
                assert(views(acc@) =~= start.push(n@));
            }
            collect_idents_rec(base, acc);
            assert(views(acc@) =~= start + collect_idents_spec(*e));
        },
        Expr::Call { func, args } => collect_idents_rec(func, acc),
        Expr::Paren(x) => collect_idents_rec(x, acc),
        Expr::Unary { not, expr } => collect_idents_rec(expr, acc),
        Expr::Reference(x) => collect_idents_rec(x, acc),
        _ => {
            assert(views(acc@) =~= start + collect_idents_spec(*e));
        },
    }
}

pub fn collect_idents(e: &Expr) -> (r: Vec<String>)
    ensures
        views(r@) == collect_idents_spec(*e),
{
    let mut out: Vec<String> = Vec::new();
    collect_idents_rec(e, &mut out);
    assert(views(out@) =~= collect_idents_spec(*e));
    out
}

/// `w` occurs in `s` as a whole `_`-delimited word (one of the pieces of `s.split('_')`).
pub open spec fn has_word(s: Seq<char>, w: Seq<char>) -> bool {
    exists|i: int|
        #[trigger] occurs_at(s, w, i) && (i == 0 || s[i - 1] == '_') && (i + w.len() == s.len() || s[i + w.len()]
            == '_')
}

fn has_word_exec(s: &[char], w: &[char]) -> (r: bool)
    ensures
        r == has_word(s@, w@),
{
    if w.len() > s.len() {
        assert(!has_word(s@, w@));
        return false;
    }
    let last = s.len() - w.len();
    let mut i: usize = 0;
    loop
        invariant
            w.len() <= s.len(),
            last == s.len() - w.len(),
            0 <= i <= last,
            forall|j: int|
                0 <= j < i ==> !(#[trigger] occurs_at(s@, w@, j) && (j == 0 || s@[j - 1] == '_') && (j + w@.len()
                    == s@.len() || s@[j + w@.len()] == '_')),
        ensures
            forall|j: int|
                0 <= j <= last ==> !(#[trigger] occurs_at(s@, w@, j) && (j == 0 || s@[j - 1] == '_') && (j + w@.len()
                    == s@.len() || s@[j + w@.len()] == '_')),
        decreases last - i,
    {
        let before_ok = i == 0 || s[i - 1] == '_';
        let after_ok = i + w.len() == s.len() || s[i + w.len()] == '_';
        if before_ok && after_ok && occurs_at_exec(s, w, i) {
            return true;
        }
        if i == last {
            break;
        }
        i += 1;
    }
    false
}

/// Some identifier, lowercased, has one of `keys` as a whole `_`-delimited word.
pub open spec fn idents_match_any_spec(ids: Seq<Seq<char>>, keys: Seq<Seq<char>>) -> bool {
    exists|i: int, k: int|
        0 <= i < ids.len() && 0 <= k < keys.len() && has_word(lowercase(#[trigger] ids[i]), #[trigger] keys[k])
}

fn key_list(from: bool) -> (r: Vec<&'static str>)
    ensures
        r@.map_values(|s: &str| s@) == if from {
            from_keys()
        } else {
            to_keys()
        },
{
    if from {
        let r = vec!["from", "sender", "source", "spender"];
        assert(r@.map_values(|s: &str| s@) =~= from_keys());
        r
    } else {
        let r = vec!["to", "recipient", "dest", "destination"];
        assert(r@.map_values(|s: &str| s@) =~= to_keys());
        r
    }
}

/// Whether an identifier reads like a sender (`from == true`) or a recipient.
pub fn idents_match_any(idents: &Vec<String>, from: bool) -> (r: bool)
    ensures
        r == idents_match_any_spec(views(idents@), if from {
            from_keys()
        } else {
            to_keys()
        }),
{
    let keys = key_list(from);
    let ghost kv = keys@.map_values(|s: &str| s@);
    let ghost ids = views(idents@);
    let mut i: usize = 0;
    while i < idents.len()
        invariant
            0 <= i <= idents.len(),
            ids == views(idents@),
            kv == keys@.map_values(|s: &str| s@),
            kv == (if from { from_keys() } else { to_keys() }),
            forall|a: int, k: int| 0 <= a < i && 0 <= k < kv.len() ==> !has_word(lowercase(#[trigger] ids[a]), #[trigger] kv[k]),
        decreases idents.len() - i,
    {
        let lower = to_lowercase(idents[i].as_str());
        let lc = chars_of(lower.as_str());
        let mut k: usize = 0;
        while k < keys.len()
            invariant
                0 <= k <= keys.len(),
                0 <= i < idents.len(),
                ids == views(idents@),
                kv == keys@.map_values(|s: &str| s@),
                kv == (if from { from_keys() } else { to_keys() }),
                lc@ == lowercase(ids[i as int]),
                forall|a: int, k2: int| 0 <= a < i && 0 <= k2 < kv.len() ==> !has_word(lowercase(#[trigger] ids[a]), #[trigger] kv[k2]),
                forall|k2: int| 0 <= k2 < k ==> !has_word(lowercase(ids[i as int]), #[trigger] kv[k2]),
            decreases keys.len() - k,
        {
            let kc = chars_of(keys[k]);
            if has_word_exec(lc.as_slice(), kc.as_slice()) {
                assert(has_word(lowercase(ids[i as int]), kv[k as int]));
                return true;
            }
            k += 1;
        }
        i += 1;
    }
    false
}

/// One side reads like a sender and the other like a recipient (in either order).
pub open spec fn is_pair_spec(left: Expr, right: Expr) -> bool {
    let l = collect_idents_spec(left);
    let r = collect_idents_spec(right);
    (idents_match_any_spec(l, from_keys()) && idents_match_any_spec(r, to_keys())) || (idents_match_any_spec(
        l,
        to_keys(),
    ) && idents_match_any_spec(r, from_keys()))
}

pub fn is_sender_recipient_pair(left: &Expr, right: &Expr) -> (r: bool)
    ensures
        r == is_pair_spec(*left, *right),
{
    let left_idents = collect_idents(left);
    let right_idents = collect_idents(right);
    let left_is_from = idents_match_any(&left_idents, true);
    let left_is_to = idents_match_any(&left_idents, false);
    let right_is_from = idents_match_any(&right_idents, true);
    let right_is_to = idents_match_any(&right_idents, false);
    (left_is_from && right_is_to) || (left_is_to && right_is_from)
}

pub open spec fn guard_opt(o: &Option<Box<Expr>>, ctx: bool) -> bool
    decreases *o, 2int,
{
    match o {
        Some(e) => guard_expr(e, ctx),
        None => false,
    }
}

/// A sender/recipient comparison occurs in `e` where it can gate execution. `ctx` holds
/// inside an `if`/`while` condition or the first argument of `assert!`/`require!`/
/// `panic!`; outside such a position, comparisons and method calls are not looked into.
pub open spec fn guard_expr(e: &Expr, ctx: bool) -> bool
    decreases *e, 1int,
{
    match e {
        Expr::Binary { left, op, right, line } => ctx && (((op is Eq || op is Ne) && is_pair_spec(**left, **right))
            || guard_expr(left, ctx) || guard_expr(right, ctx)),
        Expr::MethodCall(m) => ctx && (((m.method@ == "ne"@ || m.method@ == "eq"@) && m.args.len() == 1 && is_pair_spec(
            *m.receiver,
            m.args@[0],
        )) || guard_expr(&m.receiver, ctx) || guard_exprs(&m.args, m.args.len() as int, ctx)),
        Expr::If { cond, then_branch, else_branch } => guard_expr(cond, true) || guard_block(then_branch, ctx)
            || guard_opt(else_branch, ctx),
        Expr::While { cond, body } => guard_expr(cond, true) || guard_block(body, ctx),
        Expr::Macro(mc) => match mc.path.last_ident_of() {
            Some(n) => (n == "assert"@ || n == "require"@ || n == "panic"@) && match &mc.first_arg {
                Some(a) => guard_expr(a, true),
                None => false,
            },
            None => false,
        },
        Expr::Call { func, args } => guard_expr(func, ctx) || guard_exprs(args, args.len() as int, ctx),
        Expr::Field { base, member } => guard_expr(base, ctx),
        Expr::Paren(x) => guard_expr(x, ctx),
        Expr::Unary { not, expr } => guard_expr(expr, ctx),
        Expr::Reference(x) => guard_expr(x, ctx),
        Expr::Return(x) => guard_opt(x, ctx),
        Expr::Block(b) => guard_block(b, ctx),
        Expr::Other(children) => guard_exprs(children, children.len() as int, ctx),
        Expr::Path(_) => false,
        Expr::Lit => false,
    }
}

pub open spec fn guard_exprs(v: &Vec<Expr>, n: int, ctx: bool) -> bool
    decreases *v, n,
{
    if n <= 0 || n > v.len() {
        false
    } else {
        guard_exprs(v, n - 1, ctx) || guard_expr(&v@[n - 1], ctx)
    }
}

pub open spec fn guard_block(b: &Block, ctx: bool) -> bool
    decreases *b, 3int,
{
    guard_stmts(&b.stmts, b.stmts.len() as int, ctx)
}

pub open spec fn guard_stmts(v: &Vec<Stmt>, n: int, ctx: bool) -> bool
    decreases *v, n,
{
    if n <= 0 || n > v.len() {
        false
    } else {
        guard_stmts(v, n - 1, ctx) || guard_stmt(&v@[n - 1], ctx)
    }
}

pub open spec fn guard_stmt(s: &Stmt, ctx: bool) -> bool
    decreases *s, 1int,
{
    match s {
        Stmt::Local { pat, init, diverge } => guard_opt(init, ctx) || guard_opt(diverge, ctx),
        Stmt::Item(it) => guard_item(it, ctx),
        Stmt::Expr(e) => guard_expr(e, ctx),
    }
}

pub open spec fn guard_item(it: &Item, ctx: bool) -> bool
    decreases *it, 1int,
{
    match it {
        Item::Mod { ident, attrs, content } => match content {
            Some(c) => guard_items(c, c.len() as int, ctx),
            None => false,
        },
        Item::Struct { ident, attrs } => false,
        Item::Impl(imp) => guard_impl_items(&imp.items, imp.items.len() as int, ctx),
        Item::Static(s) => guard_expr(&s.expr, ctx),
        Item::Fn { block } => guard_block(block, ctx),
        Item::Other(children) => guard_exprs(children, children.len() as int, ctx),
    }
}

pub open spec fn guard_items(v: &Vec<Item>, n: int, ctx: bool) -> bool
    decreases *v, n,
{
    if n <= 0 || n > v.len() {
        false
    } else {
        guard_items(v, n - 1, ctx) || guard_item(&v@[n - 1], ctx)
    }
}

pub open spec fn guard_impl_item(it: &ImplItem, ctx: bool) -> bool
    decreases *it, 1int,
{
    match it {
        ImplItem::Fn(f) => guard_block(&f.block, ctx),
        ImplItem::Other(children) => guard_exprs(children, children.len() as int, ctx),
    }
}

pub open spec fn guard_impl_items(v: &Vec<ImplItem>, n: int, ctx: bool) -> bool
    decreases *v, n,
{
    if n <= 0 || n > v.len() {
        false
    } else {
        guard_impl_items(v, n - 1, ctx) || guard_impl_item(&v@[n - 1], ctx)
    }
}

fn scan_opt(o: &Option<Box<Expr>>, ctx: bool) -> (r: bool)
    ensures
        r == guard_opt(o, ctx),
    decreases *o, 2int,
{
    match o {
        Some(e) => scan_expr(e, ctx),
        None => false,
    }
}

fn is_guard_macro(name: Option<&String>) -> (r: bool)
    ensures
        r == (match name {
            Some(n) => n@ == "assert"@ || n@ == "require"@ || n@ == "panic"@,
            None => false,
        }),
{
    match name {
        Some(n) => str_eq(n.as_str(), "assert") || str_eq(n.as_str(), "require") || str_eq(n.as_str(), "panic"),
        None => false,
    }
}

fn scan_expr(e: &Expr, ctx: bool) -> (r: bool)
    ensures
        r == guard_expr(e, ctx),
    decreases *e, 1int,
{
    match e {
        Expr::Binary { left, op, right, line } => {
            if !ctx {
                return false;
            }
            let cmp_op = match op {
                BinOp::Eq => true,
                BinOp::Ne => true,
                _ => false,
            };
            if cmp_op && is_sender_recipient_pair(left, right) {
                return true;
            }
            scan_expr(left, ctx) || scan_expr(right, ctx)
        },
        Expr::MethodCall(m) => {
            if !ctx {
                return false;
            }
            if (str_eq(m.method.as_str(), "ne") || str_eq(m.method.as_str(), "eq")) && m.args.len() == 1 {
                if is_sender_recipient_pair(&m.receiver, &m.args[0]) {
                    return true;
                }
            }
            scan_expr(&m.receiver, ctx) || scan_exprs(&m.args, ctx)
        },
        Expr::If { cond, then_branch, else_branch } => scan_expr(cond, true) || scan_block(then_branch, ctx)
            || scan_opt(else_branch, ctx),
        Expr::While { cond, body } => scan_expr(cond, true) || scan_block(body, ctx),
        Expr::Macro(mc) => {
            if is_guard_macro(mc.path.last_ident()) {
                match &mc.first_arg {
                    Some(a) => scan_expr(a, true),
                    None => false,
                }
            } else {
                false
            }
        },
        Expr::Call { func, args } => scan_expr(func, ctx) || scan_exprs(args, ctx),
        Expr::Field { base, member } => scan_expr(base, ctx),
        Expr::Paren(x) => scan_expr(x, ctx),
        Expr::Unary { not, expr } => scan_expr(expr, ctx),
        Expr::Reference(x) => scan_expr(x, ctx),
        Expr::Return(x) => scan_opt(x, ctx),
        Expr::Block(b) => scan_block(b, ctx),
        Expr::Other(children) => scan_exprs(children, ctx),
        Expr::Path(_) => false,
        Expr::Lit => false,
    }
}

fn scan_exprs(v: &Vec<Expr>, ctx: bool) -> (r: bool)
    ensures
        r == guard_exprs(v, v.len() as int, ctx),
    decreases *v, v.len() + 1,
{
    let mut i: usize = 0;
    while i < v.len()
        invariant
            0 <= i <= v.len(),
            !guard_exprs(v, i as int, ctx),
        decreases v.len() - i,
    {
        proof {
            assert(decreases_to!(*v => v@[i as int]));
        }
        if scan_expr(&v[i], ctx) {
            assert(guard_exprs(v, i + 1, ctx));
            proof {
                lemma_guard_exprs_mono(v, i + 1, v.len() as int, ctx);
            }
            return true;
        }
        i += 1;
    }
    false
}

proof fn lemma_guard_exprs_mono(v: &Vec<Expr>, a: int, b: int, ctx: bool)
    requires
        0 <= a <= b <= v.len(),
        guard_exprs(v, a, ctx),
    ensures
        guard_exprs(v, b, ctx),
    decreases b - a,
{
    if a < b {
        lemma_guard_exprs_mono(v, a, b - 1, ctx);
    }
}

proof fn lemma_guard_stmts_mono(v: &Vec<Stmt>, a: int, b: int, ctx: bool)
    requires
        0 <= a <= b <= v.len(),
        guard_stmts(v, a, ctx),
    ensures
        guard_stmts(v, b, ctx),
    decreases b - a,
{
    if a < b {
        lemma_guard_stmts_mono(v, a, b - 1, ctx);
    }
}

proof fn lemma_guard_items_mono(v: &Vec<Item>, a: int, b: int, ctx: bool)
    requires
        0 <= a <= b <= v.len(),
        guard_items(v, a, ctx),
    ensures
        guard_items(v, b, ctx),
    decreases b - a,
{
    if a < b {
        lemma_guard_items_mono(v, a, b - 1, ctx);
    }
}

proof fn lemma_guard_impl_items_mono(v: &Vec<ImplItem>, a: int, b: int, ctx: bool)
    requires
        0 <= a <= b <= v.len(),
        guard_impl_items(v, a, ctx),
    ensures
        guard_impl_items(v, b, ctx),
    decreases b - a,
{
    if a < b {
        lemma_guard_impl_items_mono(v, a, b - 1, ctx);
    }
}

fn scan_block(b: &Block, ctx: bool) -> (r: bool)
    ensures
        r == guard_block(b, ctx),
    decreases *b, 3int,
{
    scan_stmts(&b.stmts, ctx)
}

fn scan_stmts(v: &Vec<Stmt>, ctx: bool) -> (r: bool)
    ensures
        r == guard_stmts(v, v.len() as int, ctx),
    decreases *v, v.len() + 1,
{
    let mut i: usize = 0;
    while i < v.len()
        invariant
            0 <= i <= v.len(),
            !guard_stmts(v, i as int, ctx),
        decreases v.len() - i,
    {
        proof {
            assert(decreases_to!(*v => v@[i as int]));
        }
        if scan_stmt(&v[i], ctx) {
            proof {
                lemma_guard_stmts_mono(v, i + 1, v.len() as int, ctx);
            }
            return true;
        }
        i += 1;
    }
    false
}

fn scan_stmt(s: &Stmt, ctx: bool) -> (r: bool)
    ensures
        r == guard_stmt(s, ctx),
    decreases *s, 1int,
{
    match s {
        Stmt::Local { pat, init, diverge } => scan_opt(init, ctx) || scan_opt(diverge, ctx),
        Stmt::Item(it) => scan_item(it, ctx),
        Stmt::Expr(e) => scan_expr(e, ctx),
    }
}

fn scan_item(it: &Item, ctx: bool) -> (r: bool)
    ensures
        r == guard_item(it, ctx),
    decreases *it, 1int,
{
    match it {
        Item::Mod { ident, attrs, content } => match content {
            Some(c) => scan_items(c, ctx),
            None => false,
        },
        Item::Struct { ident, attrs } => false,
        Item::Impl(imp) => scan_impl_items(&imp.items, ctx),
        Item::Static(s) => scan_expr(&s.expr, ctx),
        Item::Fn { block } => scan_block(block, ctx),
        Item::Other(children) => scan_exprs(children, ctx),
    }
}

fn scan_items(v: &Vec<Item>, ctx: bool) -> (r: bool)
    ensures
        r == guard_items(v, v.len() as int, ctx),
    decreases *v, v.len() + 1,
{
    let mut i: usize = 0;
    while i < v.len()
        invariant
            0 <= i <= v.len(),
            !guard_items(v, i as int, ctx),
        decreases v.len() - i,
    {
        proof {
            assert(decreases_to!(*v => v@[i as int]));
        }
        if scan_item(&v[i], ctx) {
            proof {
                lemma_guard_items_mono(v, i + 1, v.len() as int, ctx);
            }
            return true;
        }
        i += 1;
    }
    false
}

fn scan_impl_item(it: &ImplItem, ctx: bool) -> (r: bool)
    ensures
        r == guard_impl_item(it, ctx),
    decreases *it, 1int,
{
    match it {
        ImplItem::Fn(f) => scan_block(&f.block, ctx),
        ImplItem::Other(children) => scan_exprs(children, ctx),
    }
}

fn scan_impl_items(v: &Vec<ImplItem>, ctx: bool) -> (r: bool)
    ensures
        r == guard_impl_items(v, v.len() as int, ctx),
    decreases *v, v.len() + 1,
{
    let mut i: usize = 0;
    while i < v.len()
        invariant
            0 <= i <= v.len(),
            !guard_impl_items(v, i as int, ctx),
        decreases v.len() - i,
    {
        proof {
            assert(decreases_to!(*v => v@[i as int]));
        }
        if scan_impl_item(&v[i], ctx) {
            proof {
                lemma_guard_impl_items_mono(v, i + 1, v.len() as int, ctx);
            }
            return true;
        }
        i += 1;
    }
    false
}

/// The body compares a sender-like and a recipient-like expression where the comparison
/// can gate execution.
pub fn body_has_sender_recipient_guard(b: &Block) -> (r: bool)
    ensures
        r == guard_block(b, false),
{
    scan_block(b, false)
}

pub open spec fn transfer_finding(f: &ImplFn) -> FindingView {
    let name = f.sig.ident@;
    FindingView {
        check_name: "self-transfer"@,
        severity: Severity::Medium,
        file_path: Seq::empty(),
        line: f.sig.fn_line,
        function_name: name,
        description: "Method `"@ + name
            + "` is named like a token transfer but does not appear to guard against `from == to`. In fee-on-transfer or rebasing designs, self-transfers can artificially inflate volume or extract fees."@,
        rule_url: Some("https://github.com/SorobanGuard/Guard-CLI/blob/main/docs/checks.md#self-transfer-medium"@),
        suggestion: Some(
            "Add a guard at the top of `"@ + name + "`: `if from == to { return; }` (or panic) to prevent self-transfers."@,
        ),
    }
}

pub open spec fn transfer_flagged(f: &ImplFn) -> bool {
    contains_text(f.sig.ident@, "transfer"@) && !guard_block(&f.block, false)
}

pub open spec fn transfer_findings(ms: Seq<(&ItemImpl, &ImplFn)>, n: int) -> Seq<FindingView>
    decreases n,
{
    if n <= 0 || n > ms.len() {
        Seq::empty()
    } else {
        transfer_findings(ms, n - 1) + if transfer_flagged(ms[n - 1].1) {
            seq![transfer_finding(ms[n - 1].1)]
        } else {
            Seq::empty()
        }
    }
}

proof fn lemma_reads_as_sender(x: Seq<char>)
    requires
        has_word(lowercase(x), "from"@) || has_word(lowercase(x), "sender"@) || has_word(lowercase(x), "source"@)
            || has_word(lowercase(x), "spender"@),
    ensures
        idents_match_any_spec(seq![x], from_keys()),
{
    let ids = seq![x];
    let keys = from_keys();
    assert(ids[0] == x);
    if has_word(lowercase(x), "from"@) {
        assert(has_word(lowercase(ids[0]), keys[0]));
    } else if has_word(lowercase(x), "sender"@) {
        assert(has_word(lowercase(ids[0]), keys[1]));
    } else if has_word(lowercase(x), "source"@) {
        assert(has_word(lowercase(ids[0]), keys[2]));
    } else {
        assert(has_word(lowercase(ids[0]), keys[3]));
    }
}

proof fn lemma_reads_as_recipient(x: Seq<char>)
    requires
        has_word(lowercase(x), "to"@) || has_word(lowercase(x), "recipient"@) || has_word(lowercase(x), "dest"@)
            || has_word(lowercase(x), "destination"@),
    ensures
        idents_match_any_spec(seq![x], to_keys()),
{
    let ids = seq![x];
    let keys = to_keys();
    assert(ids[0] == x);
    if has_word(lowercase(x), "to"@) {
        assert(has_word(lowercase(ids[0]), keys[0]));
    } else if has_word(lowercase(x), "recipient"@) {
        assert(has_word(lowercase(ids[0]), keys[1]));
    } else if has_word(lowercase(x), "dest"@) {
        assert(has_word(lowercase(ids[0]), keys[2]));
    } else {
        assert(has_word(lowercase(ids[0]), keys[3]));
    }
}

/// Self-transfer guard: a statement `if x == y { .. }` (or `x != y`) in a method's body,
/// where one of the identifiers `x`, `y` has `from`, `sender`, `source` or `spender` among
/// its lowercased `_`-separated words and the other has `to`, `recipient`, `dest` or
/// `destination`, counts as a guard against `from == to`, so the method is never flagged,
/// whatever its name and whatever else its body holds.
pub proof fn law_sender_recipient_comparison_guards(f: &ImplFn, i: int, x: Seq<char>, y: Seq<char>)
    requires
        0 <= i < f.block.stmts.len(),
        ({
            &&& f.block.stmts@[i] matches Stmt::Expr(Expr::If { cond, then_branch, else_branch })
            &&& *cond matches Expr::Binary { left, op, right, line }
            &&& (op is Eq || op is Ne)
            &&& *left matches Expr::Path(pl)
            &&& pl.ident_of() == Some(x)
            &&& *right matches Expr::Path(pr)
            &&& pr.ident_of() == Some(y)
        }),
        ({
            let sender = |w: Seq<char>|
                has_word(lowercase(w), "from"@) || has_word(lowercase(w), "sender"@) || has_word(lowercase(w), "source"@)
                    || has_word(lowercase(w), "spender"@);
            let recipient = |w: Seq<char>|
                has_word(lowercase(w), "to"@) || has_word(lowercase(w), "recipient"@) || has_word(lowercase(w), "dest"@)
                    || has_word(lowercase(w), "destination"@);
            (sender(x) && recipient(y)) || (recipient(x) && sender(y))
        }),
    ensures
        guard_block(&f.block, false),
        !transfer_flagged(f),
{
    let sender = |w: Seq<char>|
        has_word(lowercase(w), "from"@) || has_word(lowercase(w), "sender"@) || has_word(lowercase(w), "source"@)
            || has_word(lowercase(w), "spender"@);
    let recipient = |w: Seq<char>|
        has_word(lowercase(w), "to"@) || has_word(lowercase(w), "recipient"@) || has_word(lowercase(w), "dest"@)
            || has_word(lowercase(w), "destination"@);
    let v = &f.block.stmts;
    let s = v@[i];
    if let Stmt::Expr(e) = s {
        if let Expr::If { cond, then_branch, else_branch } = e {
            if let Expr::Binary { left, op, right, line } = *cond {
                assert(collect_idents_spec(*left) == seq![x]);
                assert(collect_idents_spec(*right) == seq![y]);
                if sender(x) && recipient(y) {
                    lemma_reads_as_sender(x);
                    lemma_reads_as_recipient(y);
                } else {
                    lemma_reads_as_recipient(x);
                    lemma_reads_as_sender(y);
                }
                assert(is_pair_spec(*left, *right));
                assert(guard_expr(&cond, true));
                assert(guard_expr(&e, false));
            }
        }
    }
    assert(guard_stmt(&v@[i], false));
    assert(guard_stmts(v, i + 1, false));
    lemma_guard_stmts_mono(v, i + 1, v.len() as int, false);
}

/// Methods of `#[contractimpl]` blocks named like `transfer` whose body never compares a
/// sender-like and a recipient-like value (`from != to`, `from.ne(&to)`, ...) inside an
/// `if`/`while` condition or an `assert!`/`require!`/`panic!` argument.
pub struct SelfTransferCheck;

impl SelfTransferCheck {
    fn finding_for(f: &ImplFn) -> (r: Finding)
        ensures
            r@ == transfer_finding(f),
    {
        let name = f.sig.ident.clone();
        let mut description = String::from_str("Method `");
        description.append(name.as_str());
        description.append(
            "` is named like a token transfer but does not appear to guard against `from == to`. In fee-on-transfer or rebasing designs, self-transfers can artificially inflate volume or extract fees.",
        );
        let mut suggestion = String::from_str("Add a guard at the top of `");
        suggestion.append(name.as_str());
        suggestion.append("`: `if from == to { return; }` (or panic) to prevent self-transfers.");
        Finding {
            check_name: String::from_str("self-transfer"),
            severity: Severity::Medium,
            file_path: String::new(),
            line: f.sig.fn_line,
            function_name: name,
            description,
            rule_url: Some(String::from_str("https://github.com/SorobanGuard/Guard-CLI/blob/main/docs/checks.md#self-transfer-medium")),
            suggestion: Some(suggestion),
        }
    }
}

impl Check for SelfTransferCheck {
    open spec fn name_spec(&self) -> Seq<char> {
        "self-transfer"@
    }

    open spec fn findings_spec(&self, file: &SourceFile) -> Seq<FindingView> {
        transfer_findings(contract_methods(file), contract_methods(file).len() as int)
    }

    fn name(&self) -> (r: &str) {
        "self-transfer"
    }

    fn run(&self, file: &SourceFile, source: &str) -> (r: Vec<Finding>) {
        let methods = contractimpl_functions_with_type_excluding_test(file);
        let mut out: Vec<Finding> = Vec::new();
        let mut i: usize = 0;
        while i < methods.len()
            invariant
                0 <= i <= methods.len(),
                methods@ == contract_methods(file),
                findings_view(out@) == transfer_findings(methods@, i as int),
            decreases methods.len() - i,
        {
            let f = methods[i].1;
            let ghost prev = out@;
            if str_contains(f.sig.ident.as_str(), "transfer") && !body_has_sender_recipient_guard(&f.block) {
                out.push(Self::finding_for(f));
                proof {
                    lemma_findings_view_push(prev, out@.last());
                    assert(out@ =~= prev.push(out@.last()));
                }
            }
            i += 1;
        }
        out
    }
}

}
