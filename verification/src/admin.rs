//! Privileged-style entrypoints without any `require_auth` / `require_auth_for_args` call.
use vstd::prelude::*;
use crate::finding::{findings_view, lemma_findings_view_push, Check, Finding, FindingView, Severity};
use crate::syntax::{
    expr_nodes, nodes_expr, Block, Expr, ImplFn, ImplItem, Item, ItemImpl, Node, SourceFile, Stmt,
};
use crate::text::{contains_text, is_prefix, lowercase, str_contains, str_eq, str_starts_with, to_lowercase};
use crate::util::{
    address_param_names, chain_contains, contract_methods, contractimpl_functions_with_type_excluding_test,
    params_of_type, pat_ident_name, pat_ident_spec, receiver_chain_contains, vec_contains_str, views,
};

verus! {

/// Known high-risk entrypoint names (exact match, snake_case).
pub open spec fn sensitive_names() -> Seq<Seq<char>> {
    seq![
        "set_owner"@, "set_admin"@, "transfer_ownership"@, "pause"@, "unpause"@, "migrate"@,
        "upgrade"@, "emergency_pause"@, "emergency_stop"@, "grant_role"@, "revoke_role"@,
        "withdraw_fees"@, "set_fee"@, "set_fees"@, "renounce_ownership"@, "destroy"@, "kill"@,
    ]
}

/// Prefixes that mark a function as sensitive (e.g. `set_admin_fee`, `pause_withdrawals`).
pub open spec fn sensitive_prefixes() -> Seq<Seq<char>> {
    seq!["set_admin"@, "pause_"@, "emergency_"@]
}

/// `name` is a built-in sensitive name, starts with a sensitive prefix, or is one of `extra`.
pub open spec fn is_sensitive_name_spec(name: Seq<char>, extra: Seq<Seq<char>>) -> bool {
    ||| sensitive_names().contains(name)
    ||| exists|i: int| 0 <= i < sensitive_prefixes().len() && is_prefix(#[trigger] sensitive_prefixes()[i], name)
    ||| extra.contains(name)
}

fn sensitive_name_list() -> (r: Vec<&'static str>)
    ensures
        r@.map_values(|s: &str| s@) == sensitive_names(),
{
    let r = vec![
        "set_owner", "set_admin", "transfer_ownership", "pause", "unpause", "migrate", "upgrade",
        "emergency_pause", "emergency_stop", "grant_role", "revoke_role", "withdraw_fees", "set_fee",
        "set_fees", "renounce_ownership", "destroy", "kill",
    ];
    assert(r@.map_values(|s: &str| s@) =~= sensitive_names());
    r
}

fn sensitive_prefix_list() -> (r: Vec<&'static str>)
    ensures
        r@.map_values(|s: &str| s@) == sensitive_prefixes(),
{
    let r = vec!["set_admin", "pause_", "emergency_"];
    assert(r@.map_values(|s: &str| s@) =~= sensitive_prefixes());
    r
}

/// Whether `name` is a sensitive admin entrypoint name.
pub fn is_sensitive_name(name: &str, extra: &Vec<String>) -> (r: bool)
    ensures
        r == is_sensitive_name_spec(name@, views(extra@)),
{
    let names = sensitive_name_list();
    let ghost nv = names@.map_values(|s: &str| s@);
    let mut i: usize = 0;
    while i < names.len()
        invariant
            0 <= i <= names.len(),
            nv == names@.map_values(|s: &str| s@),
            nv == sensitive_names(),
            forall|j: int| 0 <= j < i ==> nv[j] != name@,
        decreases names.len() - i,
    {
        if str_eq(names[i], name) {
            assert(nv[i as int] == name@);
            return true;
        }
        i += 1;
    }
    assert(!sensitive_names().contains(name@)) by {
        if sensitive_names().contains(name@) {
            let k = choose|k: int| 0 <= k < nv.len() && nv[k] == name@;
            assert(k < i);
        }
    }
    let prefixes = sensitive_prefix_list();
    let ghost pv = prefixes@.map_values(|s: &str| s@);
    let mut k: usize = 0;
    while k < prefixes.len()
        invariant
            0 <= k <= prefixes.len(),
            pv == prefixes@.map_values(|s: &str| s@),
            pv == sensitive_prefixes(),
            forall|j: int| 0 <= j < k ==> !is_prefix(pv[j], name@),
        decreases prefixes.len() - k,
    {
        if str_starts_with(name, prefixes[k]) {
            assert(is_prefix(pv[k as int], name@));
            return true;
        }
        k += 1;
    }
    vec_contains_str(extra, name)
}

/// The state a body scan threads through a method body.
pub struct GateState {
    /// A `require_auth` / `require_auth_for_args` call was seen.
    pub found: bool,
    /// Names bound by `let` to a value read from storage whose name reads like an
    /// admin (`admin`, `authority`, `owner`, `caller`).
    pub vars: Seq<Seq<char>>,
    /// An `if` condition compared such a name, or an `Address` parameter, after it was bound.
    pub conditional: bool,
}

/// A `let` binds a storage read (`...storage()...get(..)...`) to an admin-like name.
pub open spec fn tracked_binding(s: Stmt) -> Option<Seq<char>> {
    match s {
        Stmt::Local { pat, init, diverge } => match init {
            Some(x) => if chain_contains(*x, "storage"@) && chain_contains(*x, "get"@) {
                match pat_ident_spec(pat) {
                    Some(v) => if admin_like(v) {
                        Some(v)
                    } else {
                        None
                    },
                    None => None,
                }
            } else {
                None
            },
            None => None,
        },
        _ => None,
    }
}

/// The lowercase name mentions `admin`, `authority`, `owner` or `caller`.
pub open spec fn admin_like(v: Seq<char>) -> bool {
    ||| contains_text(lowercase(v), "admin"@)
    ||| contains_text(lowercase(v), "authority"@)
    ||| contains_text(lowercase(v), "owner"@)
    ||| contains_text(lowercase(v), "caller"@)
}

/// Some path expression inside `e` ends in one of `names`.
pub open spec fn refs_any(e: &Expr, names: Seq<Seq<char>>) -> bool {
    exists|i: int|
        0 <= i < nodes_expr(e).len() && (match #[trigger] nodes_expr(e)[i] {
            Node::Expr(x) => match x {
                Expr::Path(p) => match p.last_ident_of() {
                    Some(id) => names.contains(id),
                    None => false,
                },
                _ => false,
            },
            _ => false,
        })
}

pub open spec fn is_auth_method(m: Seq<char>) -> bool {
    m == "require_auth"@ || m == "require_auth_for_args"@
}

pub open spec fn gate_opt(o: &Option<Box<Expr>>, st: GateState, addr: Seq<Seq<char>>) -> GateState
    decreases *o, 2int,
{
    match o {
        Some(e) => gate_expr(e, st, addr),
        None => st,
    }
}

/// The scan state after visiting `e` from state `st`.
pub open spec fn gate_expr(e: &Expr, st: GateState, addr: Seq<Seq<char>>) -> GateState
    decreases *e, 1int,
{
    match e {
        Expr::MethodCall(m) => {
            let st0 = GateState { found: st.found || is_auth_method(m.method@), ..st };
            gate_exprs(&m.args, m.args.len() as int, gate_expr(&m.receiver, st0, addr), addr)
        },
        Expr::Call { func, args } => gate_exprs(args, args.len() as int, gate_expr(func, st, addr), addr),
        Expr::Field { base, member } => gate_expr(base, st, addr),
        Expr::Paren(x) => gate_expr(x, st, addr),
        Expr::Unary { not, expr } => gate_expr(expr, st, addr),
        Expr::Reference(x) => gate_expr(x, st, addr),
        Expr::Binary { left, op, right, line } => gate_expr(right, gate_expr(left, st, addr), addr),
        Expr::If { cond, then_branch, else_branch } => {
            let had = st.vars.len() > 0;
            let st1 = gate_opt(else_branch, gate_block(then_branch, gate_expr(cond, st, addr), addr), addr);
            if had && !st1.conditional && refs_any(cond, st1.vars + addr) {
                GateState { conditional: true, ..st1 }
            } else {
                st1
            }
        },
        Expr::While { cond, body } => gate_block(body, gate_expr(cond, st, addr), addr),
        Expr::Return(x) => gate_opt(x, st, addr),
        Expr::Block(b) => gate_block(b, st, addr),
        Expr::Other(children) => gate_exprs(children, children.len() as int, st, addr),
        _ => st,
    }
}

pub open spec fn gate_exprs(v: &Vec<Expr>, n: int, st: GateState, addr: Seq<Seq<char>>) -> GateState
    decreases *v, n,
{
    if n <= 0 || n > v.len() {
        st
    } else {
        gate_expr(&v@[n - 1], gate_exprs(v, n - 1, st, addr), addr)
    }
}

pub open spec fn gate_block(b: &Block, st: GateState, addr: Seq<Seq<char>>) -> GateState
    decreases *b, 3int,
{
    gate_stmts(&b.stmts, b.stmts.len() as int, st, addr)
}

pub open spec fn gate_stmts(v: &Vec<Stmt>, n: int, st: GateState, addr: Seq<Seq<char>>) -> GateState
    decreases *v, n,
{
    if n <= 0 || n > v.len() {
        st
    } else {
        gate_stmt(&v@[n - 1], gate_stmts(v, n - 1, st, addr), addr)
    }
}

pub open spec fn gate_stmt(s: &Stmt, st: GateState, addr: Seq<Seq<char>>) -> GateState
    decreases *s, 1int,
{
    match s {
        Stmt::Local { pat, init, diverge } => {
            let st0 = match tracked_binding(*s) {
                Some(v) => GateState { vars: st.vars.push(v), ..st },
                None => st,
            };
            gate_opt(diverge, gate_opt(init, st0, addr), addr)
        },
        Stmt::Item(it) => gate_item(it, st, addr),
        Stmt::Expr(e) => gate_expr(e, st, addr),
    }
}

pub open spec fn gate_item(it: &Item, st: GateState, addr: Seq<Seq<char>>) -> GateState
    decreases *it, 1int,
{
    match it {
        Item::Mod { ident, attrs, content } => match content {
            Some(c) => gate_items(c, c.len() as int, st, addr),
            None => st,
        },
        Item::Struct { ident, attrs } => st,
        Item::Impl(imp) => gate_impl_items(&imp.items, imp.items.len() as int, st, addr),
        Item::Static(s) => gate_expr(&s.expr, st, addr),
        Item::Fn { block } => gate_block(block, st, addr),
        Item::Other(children) => gate_exprs(children, children.len() as int, st, addr),
    }
}

pub open spec fn gate_items(v: &Vec<Item>, n: int, st: GateState, addr: Seq<Seq<char>>) -> GateState
    decreases *v, n,
{
    if n <= 0 || n > v.len() {
        st
    } else {
        gate_item(&v@[n - 1], gate_items(v, n - 1, st, addr), addr)
    }
}

pub open spec fn gate_impl_item(it: &ImplItem, st: GateState, addr: Seq<Seq<char>>) -> GateState
    decreases *it, 1int,
{
    match it {
        ImplItem::Fn(f) => gate_block(&f.block, st, addr),
        ImplItem::Other(children) => gate_exprs(children, children.len() as int, st, addr),
    }
}

pub open spec fn gate_impl_items(v: &Vec<ImplItem>, n: int, st: GateState, addr: Seq<Seq<char>>) -> GateState
    decreases *v, n,
{
    if n <= 0 || n > v.len() {
        st
    } else {
        gate_impl_item(&v@[n - 1], gate_impl_items(v, n - 1, st, addr), addr)
    }
}

/// The body calls `require_auth`/`require_auth_for_args`, or compares a stored admin-like
/// binding (or an `Address` parameter) in an `if` after the binding.
pub open spec fn has_auth_gate_spec(b: &Block, addr: Seq<Seq<char>>) -> bool {
    let st = gate_block(b, GateState { found: false, vars: Seq::empty(), conditional: false }, addr);
    st.found || st.conditional
}

/// Scans a method body for an authorization gate.
pub struct AuthGateScan {
    pub found: bool,
    pub storage_read_vars: Vec<String>,
    pub storage_read_and_conditional: bool,
    pub address_names: Vec<String>,
}

impl AuthGateScan {
    pub open spec fn state(&self) -> GateState {
        GateState {
            found: self.found,
            vars: views(self.storage_read_vars@),
            conditional: self.storage_read_and_conditional,
        }
    }

    /// A scan that has seen nothing yet, treating `address_names` as caller addresses.
    pub fn new(address_names: Vec<String>) -> (r: Self)
        ensures
            r.state() == (GateState { found: false, vars: Seq::empty(), conditional: false }),
            r.address_names@ == address_names@,
    {
        let r = AuthGateScan {
            found: false,
            storage_read_vars: Vec::new(),
            storage_read_and_conditional: false,
            address_names,
        };
        assert(views(r.storage_read_vars@) =~= Seq::<Seq<char>>::empty());
        r
    }

    fn names_with_addresses(&self) -> (r: Vec<String>)
        ensures
            views(r@) == views(self.storage_read_vars@) + views(self.address_names@),
    {
        let mut r: Vec<String> = Vec::new();
        let mut i: usize = 0;
        while i < self.storage_read_vars.len()
            invariant
                0 <= i <= self.storage_read_vars.len(),
                views(r@) == views(self.storage_read_vars@.take(i as int)),
            decreases self.storage_read_vars.len() - i,
        {
            let ghost prev = r@;
            let c = self.storage_read_vars[i].clone();
            r.push(c);
            assert(self.storage_read_vars@.take(i + 1) =~= self.storage_read_vars@.take(i as int).push(self.storage_read_vars@[i as int]));
            assert(views(r@) =~= views(prev).push(c@));
            i += 1;
            assert(views(r@) =~= views(self.storage_read_vars@.take(i as int)));
        }
        let mut k: usize = 0;
        while k < self.address_names.len()
            invariant
                0 <= k <= self.address_names.len(),
                views(r@) == views(self.storage_read_vars@) + views(self.address_names@.take(k as int)),
            decreases self.address_names.len() - k,
        {
            let ghost prev = r@;
            let c = self.address_names[k].clone();
            r.push(c);
            assert(self.address_names@.take(k + 1) =~= self.address_names@.take(k as int).push(self.address_names@[k as int]));
            assert(views(r@) =~= views(prev).push(c@));
            k += 1;
            assert(views(r@) =~= views(self.storage_read_vars@) + views(self.address_names@.take(k as int)));
        }
        assert(self.address_names@.take(k as int) =~= self.address_names@);
        assert(self.storage_read_vars@.take(i as int) =~= self.storage_read_vars@);
        r
    }

    fn visit_opt(&mut self, o: &Option<Box<Expr>>)
        ensures
            final(self).state() == gate_opt(o, old(self).state(), views(old(self).address_names@)),
            final(self).address_names@ == old(self).address_names@,
        decreases *o, 2int,
    {
        match o {
            Some(e) => self.visit_expr(e),
            None => {},
        }
    }

    fn visit_expr(&mut self, e: &Expr)
        ensures
            final(self).state() == gate_expr(e, old(self).state(), views(old(self).address_names@)),
            final(self).address_names@ == old(self).address_names@,
        decreases *e, 1int,
    {
        match e {
            Expr::MethodCall(m) => {
                if str_eq(m.method.as_str(), "require_auth") || str_eq(
                    m.method.as_str(),
                    "require_auth_for_args",
                ) {
                    self.found = true;
                }
                self.visit_expr(&m.receiver);
                self.visit_exprs(&m.args);
            },
            Expr::Call { func, args } => {
                self.visit_expr(func);
                self.visit_exprs(args);
            },
            Expr::Field { base, member } => self.visit_expr(base),
            Expr::Paren(x) => self.visit_expr(x),
            Expr::Unary { not, expr } => self.visit_expr(expr),
            Expr::Reference(x) => self.visit_expr(x),
            Expr::Binary { left, op, right, line } => {
                self.visit_expr(left);
                self.visit_expr(right);
            },
            Expr::If { cond, then_branch, else_branch } => {
                let had_tracked_var = self.storage_read_vars.len() > 0;
                self.visit_expr(cond);
                self.visit_block(then_branch);
                self.visit_opt(else_branch);
                if had_tracked_var && !self.storage_read_and_conditional {
                    let names = self.names_with_addresses();
                    if expr_references_any(cond, &names) {
                        self.storage_read_and_conditional = true;
                    }
                }
            },
            Expr::While { cond, body } => {
                self.visit_expr(cond);
                self.visit_block(body);
            },
            Expr::Return(x) => self.visit_opt(x),
            Expr::Block(b) => self.visit_block(b),
            Expr::Other(children) => self.visit_exprs(children),
            _ => {},
        }
    }

    fn visit_exprs(&mut self, v: &Vec<Expr>)
        ensures
            final(self).state() == gate_exprs(v, v.len() as int, old(self).state(), views(old(self).address_names@)),
            final(self).address_names@ == old(self).address_names@,
        decreases *v, v.len() + 1,
    {
        let mut i: usize = 0;
        while i < v.len()
            invariant
                0 <= i <= v.len(),
                self.address_names@ == old(self).address_names@,
                self.state() == gate_exprs(v, i as int, old(self).state(), views(old(self).address_names@)),
            decreases v.len() - i,
        {
            proof {
                assert(decreases_to!(*v => v@[i as int]));
            }
            self.visit_expr(&v[i]);
            i += 1;
        }
    }

    fn visit_block(&mut self, b: &Block)
        ensures
            final(self).state() == gate_block(b, old(self).state(), views(old(self).address_names@)),
            final(self).address_names@ == old(self).address_names@,
        decreases *b, 3int,
    {
        self.visit_stmts(&b.stmts);
    }

    fn visit_stmts(&mut self, v: &Vec<Stmt>)
        ensures
            final(self).state() == gate_stmts(v, v.len() as int, old(self).state(), views(old(self).address_names@)),
            final(self).address_names@ == old(self).address_names@,
        decreases *v, v.len() + 1,
    {
        let mut i: usize = 0;
        while i < v.len()
            invariant
                0 <= i <= v.len(),
                self.address_names@ == old(self).address_names@,
                self.state() == gate_stmts(v, i as int, old(self).state(), views(old(self).address_names@)),
            decreases v.len() - i,
        {
            proof {
                assert(decreases_to!(*v => v@[i as int]));
            }
            self.visit_stmt(&v[i]);
            i += 1;
        }
    }

    fn track_binding(&mut self, s: &Stmt)
        ensures
            final(self).state() == (match tracked_binding(*s) {
                Some(v) => GateState { vars: old(self).state().vars.push(v), ..old(self).state() },
                None => old(self).state(),
            }),
            final(self).address_names@ == old(self).address_names@,
    {
        if let Stmt::Local { pat, init, diverge } = s {
            if let Some(x) = init {
                if receiver_chain_contains(x, "storage") && receiver_chain_contains(x, "get") {
                    if let Some(name) = pat_ident_name(pat) {
                        let lower = to_lowercase(name.as_str());
                        if str_contains(lower.as_str(), "admin") || str_contains(lower.as_str(), "authority")
                            || str_contains(lower.as_str(), "owner") || str_contains(
                            lower.as_str(),
                            "caller",
                        ) {
                            let ghost before = self.storage_read_vars@;
                            self.storage_read_vars.push(name.clone());
                            assert(views(self.storage_read_vars@) =~= views(before).push(name@));
                        }
                    }
                }
            }
        }
    }

    fn visit_stmt(&mut self, s: &Stmt)
        ensures
            final(self).state() == gate_stmt(s, old(self).state(), views(old(self).address_names@)),
            final(self).address_names@ == old(self).address_names@,
        decreases *s, 1int,
    {
        match s {
            Stmt::Local { pat, init, diverge } => {
                self.track_binding(s);
                self.visit_opt(init);
                self.visit_opt(diverge);
            },
            Stmt::Item(it) => self.visit_item(it),
            Stmt::Expr(e) => self.visit_expr(e),
        }
    }

    fn visit_item(&mut self, it: &Item)
        ensures
            final(self).state() == gate_item(it, old(self).state(), views(old(self).address_names@)),
            final(self).address_names@ == old(self).address_names@,
        decreases *it, 1int,
    {
        match it {
            Item::Mod { ident, attrs, content } => match content {
                Some(c) => self.visit_items(c),
                None => {},
            },
            Item::Struct { ident, attrs } => {},
            Item::Impl(imp) => self.visit_impl_items(&imp.items),
            Item::Static(s) => self.visit_expr(&s.expr),
            Item::Fn { block } => self.visit_block(block),
            Item::Other(children) => self.visit_exprs(children),
        }
    }

    fn visit_items(&mut self, v: &Vec<Item>)
        ensures
            final(self).state() == gate_items(v, v.len() as int, old(self).state(), views(old(self).address_names@)),
            final(self).address_names@ == old(self).address_names@,
        decreases *v, v.len() + 1,
    {
        let mut i: usize = 0;
        while i < v.len()
            invariant
                0 <= i <= v.len(),
                self.address_names@ == old(self).address_names@,
                self.state() == gate_items(v, i as int, old(self).state(), views(old(self).address_names@)),
            decreases v.len() - i,
        {
            proof {
                assert(decreases_to!(*v => v@[i as int]));
            }
            self.visit_item(&v[i]);
            i += 1;
        }
    }

    fn visit_impl_item(&mut self, it: &ImplItem)
        ensures
            final(self).state() == gate_impl_item(it, old(self).state(), views(old(self).address_names@)),
            final(self).address_names@ == old(self).address_names@,
        decreases *it, 1int,
    {
        match it {
            ImplItem::Fn(f) => self.visit_block(&f.block),
            ImplItem::Other(children) => self.visit_exprs(children),
        }
    }

    fn visit_impl_items(&mut self, v: &Vec<ImplItem>)
        ensures
            final(self).state() == gate_impl_items(v, v.len() as int, old(self).state(), views(old(self).address_names@)),
            final(self).address_names@ == old(self).address_names@,
        decreases *v, v.len() + 1,
    {
        let mut i: usize = 0;
        while i < v.len()
            invariant
                0 <= i <= v.len(),
                self.address_names@ == old(self).address_names@,
                self.state() == gate_impl_items(v, i as int, old(self).state(), views(old(self).address_names@)),
            decreases v.len() - i,
        {
            proof {
                assert(decreases_to!(*v => v@[i as int]));
            }
            self.visit_impl_item(&v[i]);
            i += 1;
        }
    }
}

/// Whether some path expression in `e` ends in one of `names`.
pub fn expr_references_any(e: &Expr, names: &Vec<String>) -> (r: bool)
    ensures
        r == refs_any(e, views(names@)),
{
    let nodes = expr_nodes(e);
    let mut i: usize = 0;
    while i < nodes.len()
        invariant
            0 <= i <= nodes.len(),
            nodes@ == nodes_expr(e),
            forall|j: int| 0 <= j < i ==> !(match #[trigger] nodes_expr(e)[j] {
                Node::Expr(x) => match x {
                    Expr::Path(p) => match p.last_ident_of() {
                        Some(id) => views(names@).contains(id),
                        None => false,
                    },
                    _ => false,
                },
                _ => false,
            }),
        decreases nodes.len() - i,
    {
        if let Node::Expr(x) = nodes[i] {
            if let Expr::Path(p) = x {
                if let Some(id) = p.last_ident() {
                    if vec_contains_str(names, id.as_str()) {
                        assert(match nodes_expr(e)[i as int] {
                            Node::Expr(x) => match x {
                                Expr::Path(p) => match p.last_ident_of() {
                                    Some(id) => views(names@).contains(id),
                                    None => false,
                                },
                                _ => false,
                            },
                            _ => false,
                        });
                        return true;
                    }
                }
            }
        }
        i += 1;
    }
    false
}

/// Whether the body holds an authorization gate.
pub fn body_has_auth_gate(block: &Block, address_names: &Vec<String>) -> (r: bool)
    ensures
        r == has_auth_gate_spec(block, views(address_names@)),
{
    let mut v = AuthGateScan::new(address_names.clone());
    v.visit_block(block);
    v.found || v.storage_read_and_conditional
}

pub open spec fn admin_description(name: Seq<char>) -> Seq<char> {
    "Public method `"@ + name
        + "` matches a privileged admin pattern but has no `require_auth()` or `require_auth_for_args()` call in its body. Anyone may invoke this entrypoint."@
}

/// The finding reported for an unprotected admin method.
pub open spec fn admin_finding(f: &ImplFn) -> FindingView {
    FindingView {
        check_name: "unprotected-admin"@,
        severity: Severity::High,
        file_path: Seq::empty(),
        line: f.sig.fn_line,
        function_name: f.sig.ident@,
        description: admin_description(f.sig.ident@),
        rule_url: Some("https://github.com/SorobanGuard/Guard-CLI/blob/main/docs/checks.md#unprotected-admin-high"@),
        suggestion: Some("Add `env.require_auth();` or verify the caller against a stored admin address."@),
    }
}

/// The method is public, sensitively named, and its body has no authorization gate.
pub open spec fn admin_flagged(f: &ImplFn, extra: Seq<Seq<char>>) -> bool {
    &&& f.is_pub
    &&& is_sensitive_name_spec(f.sig.ident@, extra)
    &&& !has_auth_gate_spec(&f.block, params_of_type(f.sig.inputs@, "Address"@))
}

/// Findings for the first `n` contract methods.
pub open spec fn admin_findings(ms: Seq<(&ItemImpl, &ImplFn)>, extra: Seq<Seq<char>>, n: int) -> Seq<FindingView>
    decreases n,
{
    if n <= 0 || n > ms.len() {
        Seq::empty()
    } else {
        admin_findings(ms, extra, n - 1) + if admin_flagged(ms[n - 1].1, extra) {
            seq![admin_finding(ms[n - 1].1)]
        } else {
            Seq::empty()
        }
    }
}

impl Default for UnprotectedAdminCheck {
    /// The check with only the built-in sensitive names (as `new`).
    fn default() -> (r: Self)
        ensures
            r.extra_names@.len() == 0,
    {
        Self::new()
    }
}

/// `pub` methods of `#[contractimpl]` blocks whose name matches a sensitive admin pattern
/// and whose body neither calls `require_auth`/`require_auth_for_args` nor compares a
/// stored admin-like value (or an `Address` parameter) in an `if`.
pub struct UnprotectedAdminCheck {
    pub extra_names: Vec<String>,
}

impl UnprotectedAdminCheck {
    /// The check with only the built-in sensitive names.
    pub fn new() -> (r: Self)
        ensures
            r.extra_names@.len() == 0,
    {
        UnprotectedAdminCheck { extra_names: Vec::new() }
    }

    /// The check with project-specific names added to the built-in sensitive names.
    pub fn with_extra_names(extra: Vec<String>) -> (r: Self)
        ensures
            r.extra_names@ == extra@,
    {
        UnprotectedAdminCheck { extra_names: extra }
    }

    fn finding_for(f: &ImplFn) -> (r: Finding)
        ensures
            r@ == admin_finding(f),
    {
        let name = f.sig.ident.clone();
        let mut description = String::from_str("Public method `");
        description.append(name.as_str());
        description.append(
            "` matches a privileged admin pattern but has no `require_auth()` or `require_auth_for_args()` call in its body. Anyone may invoke this entrypoint.",
        );
        Finding {
            check_name: String::from_str("unprotected-admin"),
            severity: Severity::High,
            file_path: String::new(),
            line: f.sig.fn_line,
            function_name: name,
            description,
            rule_url: Some(
                String::from_str(
                    "https://github.com/SorobanGuard/Guard-CLI/blob/main/docs/checks.md#unprotected-admin-high",
                ),
            ),
            suggestion: Some(
                String::from_str("Add `env.require_auth();` or verify the caller against a stored admin address."),
            ),
        }
    }
}

proof fn lemma_admin_findings_contains(ms: Seq<(&ItemImpl, &ImplFn)>, extra: Seq<Seq<char>>, n: int, i: int)
    requires
        0 <= i < n <= ms.len(),
        admin_flagged(ms[i].1, extra),
    ensures
        admin_findings(ms, extra, n).contains(admin_finding(ms[i].1)),
    decreases n,
{
    let prefix = admin_findings(ms, extra, n - 1);
    if i == n - 1 {
        assert(admin_findings(ms, extra, n)[prefix.len() as int] == admin_finding(ms[i].1));
    } else {
        lemma_admin_findings_contains(ms, extra, n - 1, i);
        let j = choose|j: int| 0 <= j < prefix.len() && prefix[j] == admin_finding(ms[i].1);
        assert(admin_findings(ms, extra, n)[j] == admin_finding(ms[i].1));
    }
}

/// Each documented privileged name is sensitive, whatever extra names are configured.
proof fn lemma_documented_name_is_sensitive(n: Seq<char>, extra: Seq<Seq<char>>)
    requires
        n == "set_owner"@ || n == "set_admin"@ || n == "transfer_ownership"@ || n == "pause"@ ||
            n == "unpause"@ || n == "migrate"@ || n == "upgrade"@ || n == "emergency_pause"@ ||
            n == "emergency_stop"@ || n == "grant_role"@ || n == "revoke_role"@ ||
            n == "withdraw_fees"@ || n == "set_fee"@ || n == "set_fees"@ || n == "renounce_ownership"@ ||
            n == "destroy"@ || n == "kill"@,
    ensures
        is_sensitive_name_spec(n, extra),
{
    if n == "set_owner"@ {
        assert(sensitive_names()[0] == n);
    } else if n == "set_admin"@ {
        assert(sensitive_names()[1] == n);
    } else if n == "transfer_ownership"@ {
        assert(sensitive_names()[2] == n);
    } else if n == "pause"@ {
        assert(sensitive_names()[3] == n);
    } else if n == "unpause"@ {
        assert(sensitive_names()[4] == n);
    } else if n == "migrate"@ {
        assert(sensitive_names()[5] == n);
    } else if n == "upgrade"@ {
        assert(sensitive_names()[6] == n);
    } else if n == "emergency_pause"@ {
        assert(sensitive_names()[7] == n);
    } else if n == "emergency_stop"@ {
        assert(sensitive_names()[8] == n);
    } else if n == "grant_role"@ {
        assert(sensitive_names()[9] == n);
    } else if n == "revoke_role"@ {
        assert(sensitive_names()[10] == n);
    } else if n == "withdraw_fees"@ {
        assert(sensitive_names()[11] == n);
    } else if n == "set_fee"@ {
        assert(sensitive_names()[12] == n);
    } else if n == "set_fees"@ {
        assert(sensitive_names()[13] == n);
    } else if n == "renounce_ownership"@ {
        assert(sensitive_names()[14] == n);
    } else if n == "destroy"@ {
        assert(sensitive_names()[15] == n);
    } else if n == "kill"@ {
        assert(sensitive_names()[16] == n);
    }
}

/// Unprotected admin: a `pub` method of a `#[contractimpl]` block named `set_owner`,
/// `set_admin`, `transfer_ownership`, `pause`, `unpause`, `migrate`, `upgrade`,
/// `emergency_pause`, `emergency_stop`, `grant_role`, `revoke_role`, `withdraw_fees`,
/// `set_fee`, `set_fees`, `renounce_ownership`, `destroy` or `kill`, whose body has no
/// authorization gate (no `require_auth`/`require_auth_for_args` call and no `if` on a
/// stored admin or an `Address` parameter), is reported by the check, with the method's
/// name and line, whatever extra names the check was configured with.
pub proof fn law_documented_admin_names_are_reported(c: &UnprotectedAdminCheck, file: &SourceFile, i: int)
    requires
        0 <= i < contract_methods(file).len(),
        contract_methods(file)[i].1.is_pub,
        ({
            let n = contract_methods(file)[i].1.sig.ident@;
            n == "set_owner"@ || n == "set_admin"@ || n == "transfer_ownership"@ || n == "pause"@ ||
                n == "unpause"@ || n == "migrate"@ || n == "upgrade"@ || n == "emergency_pause"@ ||
                n == "emergency_stop"@ || n == "grant_role"@ || n == "revoke_role"@ ||
                n == "withdraw_fees"@ || n == "set_fee"@ || n == "set_fees"@ || n == "renounce_ownership"@ ||
                n == "destroy"@ || n == "kill"@
        }),
        !has_auth_gate_spec(
            &contract_methods(file)[i].1.block,
            params_of_type(contract_methods(file)[i].1.sig.inputs@, "Address"@),
        ),
    ensures
        c.findings_spec(file).contains(admin_finding(contract_methods(file)[i].1)),
        admin_finding(contract_methods(file)[i].1).function_name == contract_methods(file)[i].1.sig.ident@,
{
    let ms = contract_methods(file);
    let f = ms[i].1;
    lemma_documented_name_is_sensitive(f.sig.ident@, views(c.extra_names@));
    lemma_admin_findings_contains(ms, views(c.extra_names@), ms.len() as int, i);
}

impl Check for UnprotectedAdminCheck {
    open spec fn name_spec(&self) -> Seq<char> {
        "unprotected-admin"@
    }

    open spec fn findings_spec(&self, file: &SourceFile) -> Seq<FindingView> {
        admin_findings(contract_methods(file), views(self.extra_names@), contract_methods(file).len() as int)
    }

    fn name(&self) -> (r: &str) {
        "unprotected-admin"
    }

    fn run(&self, file: &SourceFile, source: &str) -> (r: Vec<Finding>) {
        let methods = contractimpl_functions_with_type_excluding_test(file);
        let ghost extra = views(self.extra_names@);
        let mut out: Vec<Finding> = Vec::new();
        let mut i: usize = 0;
        while i < methods.len()
            invariant
                0 <= i <= methods.len(),
                methods@ == contract_methods(file),
                extra == views(self.extra_names@),
                findings_view(out@) == admin_findings(methods@, extra, i as int),
            decreases methods.len() - i,
        {
            let f = methods[i].1;
            let ghost prev = out@;
            if f.is_pub && is_sensitive_name(f.sig.ident.as_str(), &self.extra_names) {
                let addr = address_param_names(&f.sig);
                if !body_has_auth_gate(&f.block, &addr) {
                    out.push(Self::finding_for(f));
                    proof {
                        lemma_findings_view_push(prev, out@.last());
                        assert(out@ =~= prev.push(out@.last()));
                    }
                }
            }
            i += 1;
        }
        out
    }
}

}
