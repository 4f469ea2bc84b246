//! Flags `#[contractimpl]` methods that read a Vec from storage, push to it, and write it
//! back without any length cap, which can brick the contract once the ledger entry size
//! limit is exceeded. The three steps must concern the same local binding: a `let` whose
//! initializer reads storage, a push onto that binding, and a storage `.set(..)` taking it.
use vstd::prelude::*;
use crate::finding::{findings_view, lemma_findings_view_push, Check, Finding, FindingView, Severity};
use crate::balance::{ident_of, ident_of_spec};
use crate::syntax::{block_nodes, expr_nodes, nodes_block, nodes_opt, Expr, ImplFn, ItemImpl, MethodCall, Node, SourceFile, Stmt};
use crate::text::str_eq;
use crate::util::{
    chain_contains, contract_methods, contractimpl_functions_with_type_excluding_test, pat_ident_name, pat_ident_spec,
    receiver_chain_contains,
};

verus! {

/// The method call at a node, if the node is one.
pub open spec fn call_at(n: Node) -> Option<MethodCall> {
    match n {
        Node::Expr(e) => match e {
            Expr::MethodCall(m) => Some(*m),
            _ => None,
        },
        _ => None,
    }
}

pub open spec fn is_storage_call(n: Node, name: Seq<char>) -> bool {
    call_at(n) matches Some(m) && m.method@ == name && chain_contains(*m.receiver, "storage"@)
}

pub open spec fn is_push_call(n: Node) -> bool {
    call_at(n) matches Some(m) && (m.method@ == "push"@ || m.method@ == "push_back"@ || m.method@ == "append"@)
}

pub open spec fn is_len_call(n: Node) -> bool {
    call_at(n) matches Some(m) && m.method@ == "len"@
}

/// The method-name line of the first push among the first `k` nodes.
pub open spec fn first_push_line(ns: Seq<Node>, k: int) -> Option<usize>
    decreases k,
{
    if k <= 0 || k > ns.len() {
        None
    } else {
        match first_push_line(ns, k - 1) {
            Some(l) => Some(l),
            None => if is_push_call(ns[k - 1]) {
                Some(call_at(ns[k - 1])->0.method_line)
            } else {
                None
            },
        }
    }
}

/// The name a `let` binds, and whether its initializer reads storage: a `.get()` on a
/// receiver chain through `.storage()`, anywhere inside it.
pub open spec fn let_binding(n: Node) -> Option<(Seq<char>, bool)> {
    match n {
        Node::Local(s) => match s {
            Stmt::Local { pat, init, diverge } => match pat_ident_spec(*pat) {
                Some(name) => Some(
                    (
                        name,
                        exists|k: int|
                            0 <= k < nodes_opt(init).len() && is_storage_call(#[trigger] nodes_opt(init)[k], "get"@),
                    ),
                ),
                None => None,
            },
            _ => None,
        },
        _ => None,
    }
}

/// After the first `k` nodes, `name` holds a value read from storage: the last `let` among
/// them that binds `name` reads storage (a later binding to anything else clears it).
pub open spec fn bound_from_storage(ns: Seq<Node>, k: int, name: Seq<char>) -> bool
    decreases k,
{
    if k <= 0 || k > ns.len() {
        false
    } else {
        match let_binding(ns[k - 1]) {
            Some(b) => if b.0 == name {
                b.1
            } else {
                bound_from_storage(ns, k - 1, name)
            },
            None => bound_from_storage(ns, k - 1, name),
        }
    }
}

/// Node `i` pushes (`push`, `push_back`, `append`) onto the binding `name`.
pub open spec fn grows_at(ns: Seq<Node>, i: int, name: Seq<char>) -> bool {
    is_push_call(ns[i]) && ident_of_spec(*call_at(ns[i])->0.receiver) == Some(name)
}

/// Node `i` takes the length of the binding `name`.
pub open spec fn len_at(ns: Seq<Node>, i: int, name: Seq<char>) -> bool {
    is_len_call(ns[i]) && ident_of_spec(*call_at(ns[i])->0.receiver) == Some(name)
}

/// Node `i` is a storage `.set(..)` with the binding `name` (or a reference to it) among
/// its arguments.
pub open spec fn writes_back_at(ns: Seq<Node>, i: int, name: Seq<char>) -> bool {
    &&& is_storage_call(ns[i], "set"@)
    &&& exists|j: int|
        0 <= j < call_at(ns[i])->0.args.len() && ident_of_spec(#[trigger] call_at(ns[i])->0.args@[j]) == Some(name)
}

/// A binding read from storage is grown and written back to storage, and its length is
/// never taken.
pub open spec fn unbounded_binding(ns: Seq<Node>, name: Seq<char>) -> bool {
    &&& bound_from_storage(ns, ns.len() as int, name)
    &&& exists|i: int| 0 <= i < ns.len() && #[trigger] grows_at(ns, i, name)
    &&& exists|i: int| 0 <= i < ns.len() && #[trigger] writes_back_at(ns, i, name)
    &&& !exists|i: int| 0 <= i < ns.len() && #[trigger] len_at(ns, i, name)
}

/// The body has an unbounded binding.
pub open spec fn vec_growth_flagged(b: &crate::syntax::Block) -> bool {
    exists|name: Seq<char>| unbounded_binding(nodes_block(b), name)
}

pub open spec fn vec_growth_description(name: Seq<char>) -> Seq<char> {
    "Function `"@ + name
        + "` reads a Vec from storage, appends to it, and writes it back without a length cap. The ledger entry will eventually exceed Soroban's size limit, bricking the contract."@
}

pub open spec fn vec_growth_finding(f: &ImplFn) -> FindingView {
    let ns = nodes_block(&f.block);
    FindingView {
        check_name: "unbounded-vec-growth"@,
        severity: Severity::Medium,
        file_path: Seq::empty(),
        line: match first_push_line(ns, ns.len() as int) {
            Some(l) => l,
            None => f.sig.ident_line,
        },
        function_name: f.sig.ident@,
        description: vec_growth_description(f.sig.ident@),
        rule_url: Some(
            "https://github.com/SorobanGuard/Guard-CLI/blob/main/docs/checks.md#unbounded-vec-growth-medium"@,
        ),
        suggestion: Some(
            "Enforce a maximum length before pushing, e.g. `require!(vec.len() < MAX_SIZE, \"capacity exceeded\");`."@,
        ),
    }
}

pub open spec fn vec_growth_findings(ms: Seq<(&ItemImpl, &ImplFn)>, n: int) -> Seq<FindingView>
    decreases n,
{
    if n <= 0 || n > ms.len() {
        Seq::empty()
    } else {
        vec_growth_findings(ms, n - 1) + if vec_growth_flagged(&ms[n - 1].1.block) {
            seq![vec_growth_finding(ms[n - 1].1)]
        } else {
            Seq::empty()
        }
    }
}

fn is_named(m: &MethodCall, name: &str) -> (r: bool)
    ensures
        r == (m.method@ == name@),
{
    str_eq(m.method.as_str(), name)
}

fn is_push_exec(n: Node) -> (r: bool)
    ensures
        r == is_push_call(n),
{
    match n {
        Node::Expr(e) => match e {
            Expr::MethodCall(m) => is_named(m, "push") || is_named(m, "push_back") || is_named(m, "append"),
            _ => false,
        },
        _ => false,
    }
}

fn is_storage_exec(n: Node, name: &str) -> (r: bool)
    ensures
        r == is_storage_call(n, name@),
{
    match n {
        Node::Expr(e) => match e {
            Expr::MethodCall(m) => is_named(m, name) && receiver_chain_contains(&m.receiver, "storage"),
            _ => false,
        },
        _ => false,
    }
}

/// Whether node `n` is a call `method` on the binding `name`.
fn call_on(n: Node, method: &str, name: &String) -> (r: bool)
    ensures
        r == (call_at(n) matches Some(m) && m.method@ == method@ && ident_of_spec(*m.receiver) == Some(name@)),
{
    match n {
        Node::Expr(e) => match e {
            Expr::MethodCall(m) => is_named(m, method) && match ident_of(&m.receiver) {
                Some(id) => str_eq(id.as_str(), name.as_str()),
                None => false,
            },
            _ => false,
        },
        _ => false,
    }
}

fn takes_len(ns: &Vec<Node>, name: &String) -> (r: bool)
    ensures
        r == exists|i: int| 0 <= i < ns@.len() && #[trigger] len_at(ns@, i, name@),
{
    let mut i: usize = 0;
    while i < ns.len()
        invariant
            0 <= i <= ns.len(),
            forall|j: int| 0 <= j < i ==> !#[trigger] len_at(ns@, j, name@),
        decreases ns.len() - i,
    {
        if call_on(ns[i], "len", name) {
            assert(len_at(ns@, i as int, name@));
            return true;
        }
        i += 1;
    }
    false
}

fn writes_back(ns: &Vec<Node>, name: &String) -> (r: bool)
    ensures
        r == exists|i: int| 0 <= i < ns@.len() && #[trigger] writes_back_at(ns@, i, name@),
{
    let mut i: usize = 0;
    while i < ns.len()
        invariant
            0 <= i <= ns.len(),
            forall|j: int| 0 <= j < i ==> !#[trigger] writes_back_at(ns@, j, name@),
        decreases ns.len() - i,
    {
        if is_storage_exec(ns[i], "set") {
            if let Node::Expr(e) = ns[i] {
                if let Expr::MethodCall(m) = e {
                    let mut k: usize = 0;
                    while k < m.args.len()
                        invariant
                            0 <= k <= m.args.len(),
                            i < ns@.len(),
                            is_storage_call(ns@[i as int], "set"@),
                            call_at(ns@[i as int]) == Some(*m),
                            forall|j: int| 0 <= j < k ==> ident_of_spec(#[trigger] m.args@[j]) != Some(name@),
                        decreases m.args.len() - k,
                    {
                        match ident_of(&m.args[k]) {
                            Some(id) => {
                                if str_eq(id.as_str(), name.as_str()) {
                                    assert(writes_back_at(ns@, i as int, name@));
                                    return true;
                                }
                            },
                            None => {},
                        }
                        k += 1;
                    }
                }
            }
        }
        i += 1;
    }
    false
}

fn reads_storage(init: &Option<Box<Expr>>) -> (r: bool)
    ensures
        r == exists|k: int| 0 <= k < nodes_opt(init).len() && is_storage_call(#[trigger] nodes_opt(init)[k], "get"@),
{
    match init {
        Some(e) => {
            let ns = expr_nodes(e);
            let mut k: usize = 0;
            while k < ns.len()
                invariant
                    0 <= k <= ns.len(),
                    ns@ == nodes_opt(init),
                    forall|j: int| 0 <= j < k ==> !is_storage_call(#[trigger] ns@[j], "get"@),
                decreases ns.len() - k,
            {
                if is_storage_exec(ns[k], "get") {
                    return true;
                }
                k += 1;
            }
            false
        },
        None => false,
    }
}

fn bound_from_storage_exec(ns: &Vec<Node>, name: &String) -> (r: bool)
    ensures
        r == bound_from_storage(ns@, ns@.len() as int, name@),
{
    let mut k: usize = ns.len();
    while k > 0
        invariant
            0 <= k <= ns.len(),
            bound_from_storage(ns@, ns@.len() as int, name@) == bound_from_storage(ns@, k as int, name@),
        decreases k,
    {
        if let Node::Local(s) = ns[k - 1] {
            if let Stmt::Local { pat, init, diverge } = s {
                if let Some(bound) = pat_ident_name(pat) {
                    if str_eq(bound.as_str(), name.as_str()) {
                        return reads_storage(init);
                    }
                }
            }
        }
        k -= 1;
    }
    false
}

/// Whether some binding of the body is read from storage, grown, written back and never
/// measured.
fn flagged_exec(b: &crate::syntax::Block) -> (r: bool)
    ensures
        r == vec_growth_flagged(b),
{
    let ns = block_nodes(b);
    let mut i: usize = 0;
    while i < ns.len()
        invariant
            0 <= i <= ns.len(),
            ns@ == nodes_block(b),
            forall|j: int, x: Seq<char>| 0 <= j < i && #[trigger] grows_at(ns@, j, x) ==> !unbounded_binding(ns@, x),
        decreases ns.len() - i,
    {
        if is_push_exec(ns[i]) {
            if let Node::Expr(e) = ns[i] {
                if let Expr::MethodCall(m) = e {
                    match ident_of(&m.receiver) {
                        Some(name) => {
                            assert(grows_at(ns@, i as int, name@));
                            if bound_from_storage_exec(&ns, name) && writes_back(&ns, name) && !takes_len(&ns, name) {
                                assert(unbounded_binding(ns@, name@));
                                return true;
                            }
                        },
                        None => {
                            assert forall|x: Seq<char>| !grows_at(ns@, i as int, x) by {}
                        },
                    }
                }
            }
        } else {
            assert forall|x: Seq<char>| !grows_at(ns@, i as int, x) by {}
        }
        i += 1;
    }
    assert forall|x: Seq<char>| !unbounded_binding(ns@, x) by {
        if unbounded_binding(ns@, x) {
            let j = choose|j: int| 0 <= j < ns@.len() && #[trigger] grows_at(ns@, j, x);
        }
    }
    false
}

fn first_push(ns: &Vec<Node>) -> (r: Option<usize>)
    ensures
        r == first_push_line(ns@, ns@.len() as int),
{
    let mut i: usize = 0;
    let mut line: Option<usize> = None;
    while i < ns.len()
        invariant
            0 <= i <= ns.len(),
            line == first_push_line(ns@, i as int),
        decreases ns.len() - i,
    {
        if line.is_none() && is_push_exec(ns[i]) {
            if let Node::Expr(e) = ns[i] {
                if let Expr::MethodCall(m) = e {
                    line = Some(m.method_line);
                }
            }
        }
        i += 1;
    }
    line
}

/// Methods of `#[contractimpl]` blocks in which a value read from storage is grown
/// (`push`, `push_back`, `append`) and written back to storage, with no `.len()` taken of
/// it.
pub struct UnboundedVecGrowthCheck;

impl UnboundedVecGrowthCheck {
    fn finding_for(f: &ImplFn, line: usize) -> (r: Finding)
        ensures
            r@ == (FindingView { line, ..vec_growth_finding(f) }),
    {
        let name = f.sig.ident.clone();
        let mut description = String::from_str("Function `");
        description.append(name.as_str());
        description.append(
            "` reads a Vec from storage, appends to it, and writes it back without a length cap. The ledger entry will eventually exceed Soroban's size limit, bricking the contract.",
        );
        Finding {
            check_name: String::from_str("unbounded-vec-growth"),
            severity: Severity::Medium,
            file_path: String::new(),
            line,
            function_name: name,
            description,
            rule_url: Some(
                String::from_str(
                    "https://github.com/SorobanGuard/Guard-CLI/blob/main/docs/checks.md#unbounded-vec-growth-medium",
                ),
            ),
            suggestion: Some(
                String::from_str(
                    "Enforce a maximum length before pushing, e.g. `require!(vec.len() < MAX_SIZE, \"capacity exceeded\");`.",
                ),
            ),
        }
    }
}

impl Check for UnboundedVecGrowthCheck {
    open spec fn name_spec(&self) -> Seq<char> {
        "unbounded-vec-growth"@
    }

    open spec fn findings_spec(&self, file: &SourceFile) -> Seq<FindingView> {
        vec_growth_findings(contract_methods(file), contract_methods(file).len() as int)
    }

    fn name(&self) -> (r: &str) {
        "unbounded-vec-growth"
    }

    fn run(&self, file: &SourceFile, source: &str) -> (r: Vec<Finding>) {
        let methods = contractimpl_functions_with_type_excluding_test(file);
        let mut out: Vec<Finding> = Vec::new();
        let mut i: usize = 0;
        while i < methods.len()
            invariant
                0 <= i <= methods.len(),
                methods@ == contract_methods(file),
                findings_view(out@) == vec_growth_findings(methods@, i as int),
            decreases methods.len() - i,
        {
            let f = methods[i].1;
            let ghost prev = out@;
            if flagged_exec(&f.block) {
                let nodes = block_nodes(&f.block);
                let line = match first_push(&nodes) {
                    Some(l) => l,
                    None => f.sig.ident_line,
                };
                out.push(Self::finding_for(f, line));
                proof {
                    lemma_findings_view_push(prev, out@.last());
                    assert(out@ =~= prev.push(out@.last()));
                }
            }
            i += 1;
        }
        out
    }
}

}
