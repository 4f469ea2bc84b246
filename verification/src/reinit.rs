//! Flags `initialize`/`init`/`setup` functions in `#[contractimpl]` that do not guard
//! against being called more than once.
use vstd::prelude::*;
use crate::finding::{findings_view, lemma_findings_view_push, Check, Finding, FindingView, Severity};
use crate::syntax::{block_nodes, nodes_block, Block, Expr, ImplFn, ItemImpl, Node, SourceFile, Stmt};
use crate::text::{contains_text, str_contains, str_eq};
use crate::util::{chain_contains, contract_methods, contractimpl_functions_with_type_excluding_test, receiver_chain_contains};

verus! {

/// The name reads like an initializer.
pub open spec fn is_init_fn_spec(name: Seq<char>) -> bool {
    contains_text(name, "init"@) || contains_text(name, "setup"@)
}

pub fn is_init_fn(name: &str) -> (r: bool)
    ensures
        r == is_init_fn_spec(name@),
{
    str_contains(name, "init") || str_contains(name, "setup")
}

/// `e` checks whether a value is present in storage: a `has`/`is_some`/`is_none` call on a
/// storage chain, possibly negated, parenthesized, or one side of a binary expression.
pub open spec fn is_storage_guard_spec(e: Expr) -> bool
    decreases e,
{
    match e {
        Expr::MethodCall(m) => (m.method@ == "has"@ || m.method@ == "is_some"@ || m.method@ == "is_none"@)
            && chain_contains(*m.receiver, "storage"@),
        Expr::Unary { not, expr } => not && is_storage_guard_spec(*expr),
        Expr::Paren(x) => is_storage_guard_spec(*x),
        Expr::Binary { left, op, right, line } => is_storage_guard_spec(*left) || is_storage_guard_spec(*right),
        _ => false,
    }
}

pub fn is_storage_guard_check(e: &Expr) -> (r: bool)
    ensures
        r == is_storage_guard_spec(*e),
    decreases e,
{
    match e {
        Expr::MethodCall(m) => {
            let name = m.method.as_str();
            (str_eq(name, "has") || str_eq(name, "is_some") || str_eq(name, "is_none"))
                && receiver_chain_contains(&m.receiver, "storage")
        },
        Expr::Unary { not, expr } => *not && is_storage_guard_check(expr),
        Expr::Paren(x) => is_storage_guard_check(x),
        Expr::Binary { left, op, right, line } => is_storage_guard_check(left) || is_storage_guard_check(right),
        _ => false,
    }
}

/// The statement stops execution: a `return`, or a `panic!`/`require!` invocation.
pub open spec fn stmt_diverges_spec(s: Stmt) -> bool {
    match s {
        Stmt::Expr(e) => match e {
            Expr::Return(_) => true,
            Expr::Macro(m) => m.path.last_ident_of() == Some("panic"@) || m.path.last_ident_of() == Some(
                "require"@,
            ),
            _ => false,
        },
        _ => false,
    }
}

pub open spec fn block_diverges_spec(b: &Block) -> bool {
    exists|i: int| 0 <= i < b.stmts.len() && stmt_diverges_spec(#[trigger] b.stmts@[i])
}

fn macro_diverges(name: Option<&String>) -> (r: bool)
    ensures
        r == (match name {
            Some(n) => n@ == "panic"@ || n@ == "require"@,
            None => false,
        }),
{
    match name {
        Some(n) => str_eq(n.as_str(), "panic") || str_eq(n.as_str(), "require"),
        None => false,
    }
}

pub fn block_diverges(b: &Block) -> (r: bool)
    ensures
        r == block_diverges_spec(b),
{
    let mut i: usize = 0;
    while i < b.stmts.len()
        invariant
            0 <= i <= b.stmts.len(),
            forall|j: int| 0 <= j < i ==> !stmt_diverges_spec(#[trigger] b.stmts@[j]),
        decreases b.stmts.len() - i,
    {
        let d = match &b.stmts[i] {
            Stmt::Expr(e) => match e {
                Expr::Return(_) => true,
                Expr::Macro(m) => macro_diverges(m.path.last_ident()),
                _ => false,
            },
            _ => false,
        };
        if d {
            assert(stmt_diverges_spec(b.stmts@[i as int]));
            return true;
        }
        i += 1;
    }
    false
}

/// A storage write: `.set(..)` on a storage chain.
pub open spec fn is_storage_write(n: Node) -> bool {
    match n {
        Node::Expr(e) => match e {
            Expr::MethodCall(m) => m.method@ == "set"@ && chain_contains(*m.receiver, "storage"@),
            _ => false,
        },
        _ => false,
    }
}

/// A re-initialization guard: an `if` whose condition checks storage presence and whose
/// then-branch stops execution, or a `require!` whose condition checks storage presence.
pub open spec fn is_reinit_guard(n: Node) -> bool {
    match n {
        Node::Expr(e) => match e {
            Expr::If { cond, then_branch, else_branch } => is_storage_guard_spec(**cond) && block_diverges_spec(
                then_branch,
            ),
            Expr::Macro(m) => m.path.last_ident_of() == Some("require"@) && match m.first_arg {
                Some(c) => is_storage_guard_spec(*c),
                None => false,
            },
            _ => false,
        },
        _ => false,
    }
}

/// The body writes to storage and no guard against re-initialization appears in it.
pub open spec fn reinit_flagged(f: &ImplFn) -> bool {
    &&& is_init_fn_spec(f.sig.ident@)
    &&& exists|i: int| 0 <= i < nodes_block(&f.block).len() && is_storage_write(#[trigger] nodes_block(&f.block)[i])
    &&& !exists|i: int| 0 <= i < nodes_block(&f.block).len() && is_reinit_guard(#[trigger] nodes_block(&f.block)[i])
}

pub open spec fn reinit_description(name: Seq<char>) -> Seq<char> {
    "Function `"@ + name
        + "` writes to storage but does not guard against re-initialization. An attacker can call it again to overwrite the owner or reset critical contract state."@
}

pub open spec fn reinit_finding(f: &ImplFn) -> FindingView {
    FindingView {
        check_name: "re-initialization-risk"@,
        severity: Severity::High,
        file_path: Seq::empty(),
        line: f.sig.ident_line,
        function_name: f.sig.ident@,
        description: reinit_description(f.sig.ident@),
        rule_url: Some(
            "https://github.com/SorobanGuard/Guard-CLI/blob/main/docs/checks.md#re-initialization-risk-high"@,
        ),
        suggestion: Some(
            "Check `env.storage().*.has(&key)` and panic or return if already initialized, e.g. `require!(!env.storage().instance().has(&key), \"already initialized\");`."@,
        ),
    }
}

pub open spec fn reinit_findings(ms: Seq<(&ItemImpl, &ImplFn)>, n: int) -> Seq<FindingView>
    decreases n,
{
    if n <= 0 || n > ms.len() {
        Seq::empty()
    } else {
        reinit_findings(ms, n - 1) + if reinit_flagged(ms[n - 1].1) {
            seq![reinit_finding(ms[n - 1].1)]
        } else {
            Seq::empty()
        }
    }
}

/// Whether a body writes storage and whether it guards against re-initialization.
pub struct BodyScan {
    pub has_storage_write: bool,
    pub has_guard: bool,
}

/// Scans a method body.
pub fn scan_body(b: &Block) -> (r: BodyScan)
    ensures
        r.has_storage_write == exists|i: int| 0 <= i < nodes_block(b).len() && is_storage_write(#[trigger] nodes_block(b)[i]),
        r.has_guard == exists|i: int| 0 <= i < nodes_block(b).len() && is_reinit_guard(#[trigger] nodes_block(b)[i]),
{
    let nodes = block_nodes(b);
    let mut scan = BodyScan { has_storage_write: false, has_guard: false };
    let mut i: usize = 0;
    while i < nodes.len()
        invariant
            0 <= i <= nodes.len(),
            nodes@ == nodes_block(b),
            scan.has_storage_write == exists|j: int| 0 <= j < i && is_storage_write(#[trigger] nodes@[j]),
            scan.has_guard == exists|j: int| 0 <= j < i && is_reinit_guard(#[trigger] nodes@[j]),
        decreases nodes.len() - i,
    {
        let n = nodes[i];
        let mut write = false;
        let mut guard = false;
        if let Node::Expr(e) = n {
            match e {
                Expr::MethodCall(m) => {
                    write = str_eq(m.method.as_str(), "set") && receiver_chain_contains_storage_call(&m.receiver);
                },
                Expr::If { cond, then_branch, else_branch } => {
                    guard = is_storage_guard_check(cond) && block_diverges(then_branch);
                },
                Expr::Macro(m) => {
                    let is_require = match m.path.last_ident() {
                        Some(id) => str_eq(id.as_str(), "require"),
                        None => false,
                    };
                    guard = is_require && match &m.first_arg {
                        Some(c) => is_storage_guard_check(c),
                        None => false,
                    };
                },
                _ => {},
            }
        }
        assert(write == is_storage_write(nodes@[i as int]));
        assert(guard == is_reinit_guard(nodes@[i as int]));
        if write {
            scan.has_storage_write = true;
        }
        if guard {
            scan.has_guard = true;
        }
        i += 1;
    }
    scan
}

fn receiver_chain_contains_storage_call(e: &Expr) -> (r: bool)
    ensures
        r == chain_contains(*e, "storage"@),
{
    receiver_chain_contains(e, "storage")
}

/// Initializer-like methods (`init`/`setup` in the name) of `#[contractimpl]` blocks that
/// write to storage without a presence check that stops a second call.
pub struct ReInitializationRiskCheck;

impl ReInitializationRiskCheck {
    fn finding_for(f: &ImplFn) -> (r: Finding)
        ensures
            r@ == reinit_finding(f),
    {
        let name = f.sig.ident.clone();
        let mut description = String::from_str("Function `");
        description.append(name.as_str());
        description.append(
            "` writes to storage but does not guard against re-initialization. An attacker can call it again to overwrite the owner or reset critical contract state.",
        );
        Finding {
            check_name: String::from_str("re-initialization-risk"),
            severity: Severity::High,
            file_path: String::new(),
            line: f.sig.ident_line,
            function_name: name,
            description,
            rule_url: Some(
                String::from_str(
                    "https://github.com/SorobanGuard/Guard-CLI/blob/main/docs/checks.md#re-initialization-risk-high",
                ),
            ),
            suggestion: Some(
                String::from_str(
                    "Check `env.storage().*.has(&key)` and panic or return if already initialized, e.g. `require!(!env.storage().instance().has(&key), \"already initialized\");`.",
                ),
            ),
        }
    }
}

proof fn lemma_reinit_findings_contains(ms: Seq<(&ItemImpl, &ImplFn)>, n: int, i: int)
    requires
        0 <= i < n <= ms.len(),
        reinit_flagged(ms[i].1),
    ensures
        reinit_findings(ms, n).contains(reinit_finding(ms[i].1)),
    decreases n,
{
    let prefix = reinit_findings(ms, n - 1);
    if i == n - 1 {
        assert(reinit_findings(ms, n)[prefix.len() as int] == reinit_finding(ms[i].1));
    } else {
        lemma_reinit_findings_contains(ms, n - 1, i);
        let j = choose|j: int| 0 <= j < prefix.len() && prefix[j] == reinit_finding(ms[i].1);
        assert(reinit_findings(ms, n)[j] == reinit_finding(ms[i].1));
    }
}

/// Re-initialization risk: a `#[contractimpl]` method whose name contains `init` or
/// `setup` (e.g. `initialize`, `setup`, `setup_pool`), whose body writes storage
/// (`.set(..)` on a storage chain) and holds no guard against running twice, is reported
/// by the check, at the line of the method's name.
pub proof fn law_initializers_writing_storage_are_reported(file: &SourceFile, i: int)
    requires
        0 <= i < contract_methods(file).len(),
        contains_text(contract_methods(file)[i].1.sig.ident@, "init"@) || contains_text(
            contract_methods(file)[i].1.sig.ident@,
            "setup"@,
        ),
        exists|k: int|
            0 <= k < nodes_block(&contract_methods(file)[i].1.block).len() && is_storage_write(
                #[trigger] nodes_block(&contract_methods(file)[i].1.block)[k],
            ),
        !exists|k: int|
            0 <= k < nodes_block(&contract_methods(file)[i].1.block).len() && is_reinit_guard(
                #[trigger] nodes_block(&contract_methods(file)[i].1.block)[k],
            ),
    ensures
        ReInitializationRiskCheck.findings_spec(file).contains(reinit_finding(contract_methods(file)[i].1)),
        reinit_finding(contract_methods(file)[i].1).line == contract_methods(file)[i].1.sig.ident_line,
{
    let ms = contract_methods(file);
    lemma_reinit_findings_contains(ms, ms.len() as int, i);
}

/// Only initializers are checked: a method whose name contains neither `init` nor `setup`
/// is never flagged, whatever its body does.
pub proof fn law_only_initializers_are_flagged(f: &ImplFn)
    requires
        !contains_text(f.sig.ident@, "init"@),
        !contains_text(f.sig.ident@, "setup"@),
    ensures
        !reinit_flagged(f),
{
}

impl Check for ReInitializationRiskCheck {
    open spec fn name_spec(&self) -> Seq<char> {
        "re-initialization-risk"@
    }

    open spec fn findings_spec(&self, file: &SourceFile) -> Seq<FindingView> {
        reinit_findings(contract_methods(file), contract_methods(file).len() as int)
    }

    fn name(&self) -> (r: &str) {
        "re-initialization-risk"
    }

    fn run(&self, file: &SourceFile, source: &str) -> (r: Vec<Finding>) {
        let methods = contractimpl_functions_with_type_excluding_test(file);
        let mut out: Vec<Finding> = Vec::new();
        let mut i: usize = 0;
        while i < methods.len()
            invariant
                0 <= i <= methods.len(),
                methods@ == contract_methods(file),
                findings_view(out@) == reinit_findings(methods@, i as int),
            decreases methods.len() - i,
        {
            let f = methods[i].1;
            let ghost prev = out@;
            if is_init_fn(f.sig.ident.as_str()) {
                let scan = scan_body(&f.block);
                if scan.has_storage_write && !scan.has_guard {
                    out.push(Self::finding_for(f));
                    proof {
                        lemma_findings_view_push(prev, out@.last());
                        assert(out@ =~= prev.push(out@.last()));
                    }
                }
            }
            i += 1;
        }
        out
    }
}

}
