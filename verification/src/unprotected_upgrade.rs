//! Upgrade/migrate entrypoints whose code-replacing call is not preceded by an
//! authorization call on the `Env` parameter or on a stored admin.
use vstd::prelude::*;
use crate::finding::{findings_view, lemma_findings_view_push, Check, Finding, FindingView, Severity};
use crate::syntax::{FnArg, block_nodes, file_nodes, nodes_block, nodes_file, Attribute, Expr, ImplFn, ImplItem, ItemImpl, MetaKind, MethodCall, Node, SourceFile, Stmt};
use crate::text::{contains_text, lowercase, str_contains, str_eq, to_lowercase};
use crate::util::{
    chain_contains, env_param_name, params_of_type, pat_ident_name, pat_ident_spec, receiver_chain_contains,
    type_is_spec, vec_contains_str, views,
};
use crate::vec_growth::call_at;

verus! {

/// Names that mark an entrypoint as an upgrade (matched as substrings).
pub open spec fn upgrade_names() -> Seq<Seq<char>> {
    seq!["upgrade"@, "migrate"@, "set_wasm"@, "replace_wasm"@]
}

pub open spec fn is_upgrade_name_spec(name: Seq<char>) -> bool {
    exists|i: int| 0 <= i < upgrade_names().len() && contains_text(name, #[trigger] upgrade_names()[i])
}

pub fn is_sensitive_name(name: &str) -> (r: bool)
    ensures
        r == is_upgrade_name_spec(name@),
{
    let r = str_contains(name, "upgrade") || str_contains(name, "migrate") || str_contains(name, "set_wasm")
        || str_contains(name, "replace_wasm");
    assert(r == is_upgrade_name_spec(name@)) by {
        assert(upgrade_names()[0] == "upgrade"@);
        assert(upgrade_names()[1] == "migrate"@);
        assert(upgrade_names()[2] == "set_wasm"@);
        assert(upgrade_names()[3] == "replace_wasm"@);
    }
    r
}

/// Some attribute is written exactly as a path ending in `contractimpl` (`#[contractimpl]`).
pub open spec fn has_contractimpl_attr_spec(attrs: Seq<Attribute>) -> bool {
    exists|i: int|
        0 <= i < attrs.len() && (#[trigger] attrs[i]).kind is Path && attrs[i].path.last_ident_of() == Some(
            "contractimpl"@,
        )
}

pub fn has_contractimpl_attr(attrs: &Vec<Attribute>) -> (r: bool)
    ensures
        r == has_contractimpl_attr_spec(attrs@),
{
    let mut i: usize = 0;
    while i < attrs.len()
        invariant
            0 <= i <= attrs.len(),
            forall|j: int|
                0 <= j < i ==> !((#[trigger] attrs@[j]).kind is Path && attrs@[j].path.last_ident_of() == Some(
                    "contractimpl"@,
                )),
        decreases attrs.len() - i,
    {
        let is_path = match attrs[i].kind {
            MetaKind::Path => true,
            _ => false,
        };
        let named = match attrs[i].path.last_ident() {
            Some(id) => str_eq(id.as_str(), "contractimpl"),
            None => false,
        };
        if is_path && named {
            return true;
        }
        i += 1;
    }
    false
}

/// A call that replaces or installs contract code.
pub open spec fn is_code_call(n: Node) -> bool {
    call_at(n) matches Some(m) && (m.method@ == "invoke_wasm"@ || m.method@ == "upload_contract_wasm"@)
}

/// The line of the first code-replacing call among the first `k` nodes.
pub open spec fn first_code_call_line(ns: Seq<Node>, k: int) -> Option<usize>
    decreases k,
{
    if k <= 0 || k > ns.len() {
        None
    } else {
        match first_code_call_line(ns, k - 1) {
            Some(l) => Some(l),
            None => if is_code_call(ns[k - 1]) {
                Some(call_at(ns[k - 1])->0.line)
            } else {
                None
            },
        }
    }
}

/// A `let` binding a storage read to a name mentioning `admin` or `authority`.
pub open spec fn admin_binding(n: Node) -> Option<Seq<char>> {
    match n {
        Node::Local(s) => match s {
            Stmt::Local { pat, init, diverge } => match init {
                Some(x) => if chain_contains(**x, "storage"@) && chain_contains(**x, "get"@) {
                    match pat_ident_spec(*pat) {
                        Some(v) => if contains_text(lowercase(v), "admin"@) || contains_text(
                            lowercase(v),
                            "authority"@,
                        ) {
                            Some(v)
                        } else {
                            None
                        },
                        None => None,
                    }
                } else {
                    None
                },
                None => None,
            },
            _ => None,
        },
        _ => None,
    }
}

/// `require_auth`/`require_auth_for_args` on the `Env` parameter or on a stored admin.
pub open spec fn is_valid_auth(m: MethodCall, env: Seq<char>, admins: Seq<Seq<char>>) -> bool {
    &&& (m.method@ == "require_auth"@ || m.method@ == "require_auth_for_args"@)
    &&& match *m.receiver {
        Expr::Path(p) => p.ident_of() == Some(env) || (p.ident_of() matches Some(id) && admins.contains(id)),
        _ => false,
    }
}

/// Stored admins bound so far and the line of the first valid authorization call, after
/// the first `k` nodes.
pub open spec fn auth_scan(ns: Seq<Node>, k: int, env: Seq<char>) -> (Seq<Seq<char>>, Option<usize>)
    decreases k,
{
    if k <= 0 || k > ns.len() {
        (Seq::empty(), None)
    } else {
        let (admins, first) = auth_scan(ns, k - 1, env);
        let n = ns[k - 1];
        let admins2 = match admin_binding(n) {
            Some(v) => admins.push(v),
            None => admins,
        };
        let first2 = match first {
            Some(l) => Some(l),
            None => match call_at(n) {
                Some(m) => if is_valid_auth(m, env, admins2) {
                    Some(m.line)
                } else {
                    None
                },
                None => None,
            },
        };
        (admins2, first2)
    }
}

/// The `Env` parameter's name, `env` when there is none.
pub open spec fn env_name_spec(f: &ImplFn) -> Seq<char> {
    let names = params_of_type(f.sig.inputs@, "Env"@);
    if names.len() > 0 {
        names[0]
    } else {
        "env"@
    }
}

/// The parameter at `k` has type `ty_name` and binds a plain name.
pub open spec fn names_param_of_type(inputs: Seq<FnArg>, k: int, ty_name: Seq<char>) -> bool {
    type_is_spec(inputs[k].ty, ty_name) && pat_ident_spec(inputs[k].pat) is Some
}

proof fn lemma_no_params_of_type(inputs: Seq<FnArg>, ty_name: Seq<char>)
    requires
        forall|k: int| 0 <= k < inputs.len() ==> !names_param_of_type(inputs, k, ty_name),
    ensures
        params_of_type(inputs, ty_name).len() == 0,
    decreases inputs.len(),
{
    if inputs.len() > 0 {
        let init = inputs.drop_last();
        assert forall|k: int| 0 <= k < init.len() implies !names_param_of_type(init, k, ty_name) by {
            assert(init[k] == inputs[k]);
            assert(!names_param_of_type(inputs, k, ty_name));
        }
        lemma_no_params_of_type(init, ty_name);
        assert(!names_param_of_type(inputs, inputs.len() - 1, ty_name));
    }
}

proof fn lemma_first_param_of_type(inputs: Seq<FnArg>, ty_name: Seq<char>, j: int, x: Seq<char>)
    requires
        0 <= j < inputs.len(),
        type_is_spec(inputs[j].ty, ty_name),
        pat_ident_spec(inputs[j].pat) == Some(x),
        forall|k: int| 0 <= k < j ==> !names_param_of_type(inputs, k, ty_name),
    ensures
        params_of_type(inputs, ty_name).len() > 0,
        params_of_type(inputs, ty_name)[0] == x,
    decreases inputs.len(),
{
    let init = inputs.drop_last();
    if j == inputs.len() - 1 {
        assert forall|k: int| 0 <= k < init.len() implies !names_param_of_type(init, k, ty_name) by {
            assert(init[k] == inputs[k]);
            assert(!names_param_of_type(inputs, k, ty_name));
        }
        lemma_no_params_of_type(init, ty_name);
    } else {
        assert forall|k: int| 0 <= k < j implies !names_param_of_type(init, k, ty_name) by {
            assert(init[k] == inputs[k]);
            assert(!names_param_of_type(inputs, k, ty_name));
        }
        assert(init[j] == inputs[j]);
        lemma_first_param_of_type(init, ty_name, j, x);
    }
}

/// Unprotected upgrade: the value whose `require_auth` counts as authorization is the
/// method's first `Env` parameter, whatever it is called. If the parameter at `j` is
/// `x: Env` and no earlier parameter names an `Env`, then `x` is the `Env` name the check
/// uses, and `x.require_auth()` / `x.require_auth_for_args(..)` is a valid authorization
/// (whatever stored admins have been seen).
pub proof fn law_first_env_parameter_authorizes(
    f: &ImplFn,
    j: int,
    x: Seq<char>,
    m: MethodCall,
    admins: Seq<Seq<char>>,
)
    requires
        0 <= j < f.sig.inputs.len(),
        type_is_spec(f.sig.inputs@[j].ty, "Env"@),
        pat_ident_spec(f.sig.inputs@[j].pat) == Some(x),
        forall|k: int| 0 <= k < j ==> !names_param_of_type(f.sig.inputs@, k, "Env"@),
        m.method@ == "require_auth"@ || m.method@ == "require_auth_for_args"@,
        *m.receiver matches Expr::Path(p) && p.ident_of() == Some(x),
    ensures
        env_name_spec(f) == x,
        is_valid_auth(m, env_name_spec(f), admins),
{
    lemma_first_param_of_type(f.sig.inputs@, "Env"@, j, x);
}

/// Without a named `Env` parameter, authorization is looked for on `env`.
pub proof fn law_env_name_defaults_to_env(f: &ImplFn)
    requires
        forall|k: int| 0 <= k < f.sig.inputs.len() ==> !names_param_of_type(f.sig.inputs@, k, "Env"@),
    ensures
        env_name_spec(f) == "env"@,
{
    lemma_no_params_of_type(f.sig.inputs@, "Env"@);
}

/// The code-replacing call comes before any valid authorization (or there is none).
pub open spec fn upgrade_flagged(f: &ImplFn) -> bool {
    let ns = nodes_block(&f.block);
    &&& f.is_pub
    &&& is_upgrade_name_spec(f.sig.ident@)
    &&& match (first_code_call_line(ns, ns.len() as int), auth_scan(ns, ns.len() as int, env_name_spec(f)).1) {
        (Some(s), Some(a)) => a >= s,
        (Some(_), None) => true,
        (None, _) => false,
    }
}

pub open spec fn upgrade_description(name: Seq<char>) -> Seq<char> {
    "Upgrade/migrate method `"@ + name + "` lacks valid require_auth protection before the sensitive operation"@
}

pub open spec fn upgrade_finding(f: &ImplFn) -> FindingView {
    let ns = nodes_block(&f.block);
    FindingView {
        check_name: "unprotected-upgrade"@,
        severity: Severity::High,
        file_path: Seq::empty(),
        line: match first_code_call_line(ns, ns.len() as int) {
            Some(l) => l,
            None => f.span_line,
        },
        function_name: f.sig.ident@,
        description: upgrade_description(f.sig.ident@),
        rule_url: Some("https://github.com/SorobanGuard/Guard-CLI/blob/main/docs/checks.md#unprotected-upgrade-high"@),
        suggestion: Some("Add env.require_auth() at the start"@),
    }
}

/// Findings for the first `k` items of a `#[contractimpl]` block.
pub open spec fn upgrade_in_impl(imp: &ItemImpl, k: int) -> Seq<FindingView>
    decreases k,
{
    if k <= 0 || k > imp.items.len() {
        Seq::empty()
    } else {
        upgrade_in_impl(imp, k - 1) + match &imp.items@[k - 1] {
            ImplItem::Fn(f) => if upgrade_flagged(f) {
                seq![upgrade_finding(f)]
            } else {
                Seq::empty()
            },
            ImplItem::Other(_) => Seq::empty(),
        }
    }
}

/// Findings for the `#[contractimpl]` blocks among the first `k` nodes of a file.
pub open spec fn upgrade_in_impls(ns: Seq<Node>, k: int) -> Seq<FindingView>
    decreases k,
{
    if k <= 0 || k > ns.len() {
        Seq::empty()
    } else {
        upgrade_in_impls(ns, k - 1) + match ns[k - 1] {
            Node::Impl(imp) => if has_contractimpl_attr_spec(imp.attrs@) {
                upgrade_in_impl(imp, imp.items.len() as int)
            } else {
                Seq::empty()
            },
            _ => Seq::empty(),
        }
    }
}

/// The line of the first code-replacing call in a body.
pub fn first_invoke_wasm_line(b: &crate::syntax::Block) -> (r: Option<usize>)
    ensures
        r == first_code_call_line(nodes_block(b), nodes_block(b).len() as int),
{
    let nodes = block_nodes(b);
    let mut line: Option<usize> = None;
    let mut i: usize = 0;
    while i < nodes.len()
        invariant
            0 <= i <= nodes.len(),
            nodes@ == nodes_block(b),
            line == first_code_call_line(nodes@, i as int),
        decreases nodes.len() - i,
    {
        if line.is_none() {
            if let Node::Expr(e) = nodes[i] {
                if let Expr::MethodCall(m) = e {
                    if str_eq(m.method.as_str(), "invoke_wasm") || str_eq(m.method.as_str(), "upload_contract_wasm") {
                        line = Some(m.line);
                    }
                }
            }
        }
        i += 1;
    }
    line
}

/// Tracks stored-admin bindings and the first valid authorization call of a body.
pub struct AuthScanner {
    pub env_name: String,
    pub admin_vars: Vec<String>,
    pub first_valid_auth_line: Option<usize>,
}

impl AuthScanner {
    pub fn new(env_name: String) -> (r: Self)
        ensures
            r.env_name@ == env_name@,
            r.admin_vars@.len() == 0,
            r.first_valid_auth_line is None,
    {
        AuthScanner { env_name, admin_vars: Vec::new(), first_valid_auth_line: None }
    }

    fn valid_auth_call(&self, m: &MethodCall) -> (r: bool)
        ensures
            r == is_valid_auth(*m, self.env_name@, views(self.admin_vars@)),
    {
        if !(str_eq(m.method.as_str(), "require_auth") || str_eq(m.method.as_str(), "require_auth_for_args")) {
            return false;
        }
        match &*m.receiver {
            Expr::Path(p) => match p.get_ident() {
                Some(id) => str_eq(id.as_str(), self.env_name.as_str()) || vec_contains_str(&self.admin_vars, id.as_str()),
                None => false,
            },
            _ => false,
        }
    }

    fn visit_node(&mut self, n: Node)
        ensures
            final(self).env_name@ == old(self).env_name@,
            ({
                let admins2 = match admin_binding(n) {
                    Some(v) => views(old(self).admin_vars@).push(v),
                    None => views(old(self).admin_vars@),
                };
                &&& views(final(self).admin_vars@) == admins2
                &&& final(self).first_valid_auth_line == match old(self).first_valid_auth_line {
                    Some(l) => Some(l),
                    None => match call_at(n) {
                        Some(m) => if is_valid_auth(m, old(self).env_name@, admins2) {
                            Some(m.line)
                        } else {
                            None
                        },
                        None => None,
                    },
                }
            }),
    {
        match n {
            Node::Local(s) => {
                if let Stmt::Local { pat, init, diverge } = s {
                    if let Some(x) = init {
                        if receiver_chain_contains(x, "storage") && receiver_chain_contains(x, "get") {
                            if let Some(name) = pat_ident_name(pat) {
                                let lower = to_lowercase(name.as_str());
                                if str_contains(lower.as_str(), "admin") || str_contains(lower.as_str(), "authority") {
                                    let ghost before = self.admin_vars@;
                                    self.admin_vars.push(name.clone());
                                    assert(views(self.admin_vars@) =~= views(before).push(name@));
                                }
                            }
                        }
                    }
                }
            },
            Node::Expr(e) => {
                if self.first_valid_auth_line.is_none() {
                    if let Expr::MethodCall(m) = e {
                        if self.valid_auth_call(m) {
                            self.first_valid_auth_line = Some(m.line);
                        }
                    }
                }
            },
            Node::Impl(_) => {},
        }
    }
}

/// The line of the first `require_auth`/`require_auth_for_args` call on the `Env`
/// parameter (named `env_name`) or on a previously bound stored admin.
pub fn first_valid_auth_line(b: &crate::syntax::Block, env_name: &String) -> (r: Option<usize>)
    ensures
        r == auth_scan(nodes_block(b), nodes_block(b).len() as int, env_name@).1,
{
    let nodes = block_nodes(b);
    let mut scanner = AuthScanner::new(env_name.clone());
    let mut i: usize = 0;
    while i < nodes.len()
        invariant
            0 <= i <= nodes.len(),
            nodes@ == nodes_block(b),
            scanner.env_name@ == env_name@,
            views(scanner.admin_vars@) == auth_scan(nodes@, i as int, env_name@).0,
            scanner.first_valid_auth_line == auth_scan(nodes@, i as int, env_name@).1,
        decreases nodes.len() - i,
    {
        scanner.visit_node(nodes[i]);
        i += 1;
    }
    scanner.first_valid_auth_line
}

/// `pub` methods of `#[contractimpl]` blocks named like an upgrade whose first
/// `invoke_wasm`/`upload_contract_wasm` call is not preceded by `require_auth` (or
/// `require_auth_for_args`) on the `Env` parameter or on a stored admin binding.
pub struct UnprotectedUpgradeCheck;

impl UnprotectedUpgradeCheck {
    fn finding_for(f: &ImplFn, line: usize) -> (r: Finding)
        ensures
            r@ == (FindingView { line, ..upgrade_finding(f) }),
    {
        let name = f.sig.ident.clone();
        let mut description = String::from_str("Upgrade/migrate method `");
        description.append(name.as_str());
        description.append("` lacks valid require_auth protection before the sensitive operation");
        Finding {
            check_name: String::from_str("unprotected-upgrade"),
            severity: Severity::High,
            file_path: String::new(),
            line,
            function_name: name,
            description,
            rule_url: Some(
                String::from_str("https://github.com/SorobanGuard/Guard-CLI/blob/main/docs/checks.md#unprotected-upgrade-high"),
            ),
            suggestion: Some(String::from_str("Add env.require_auth() at the start")),
        }
    }

    fn check_method(f: &ImplFn, out: &mut Vec<Finding>)
        ensures
            findings_view(final(out)@) == findings_view(old(out)@) + if upgrade_flagged(f) {
                seq![upgrade_finding(f)]
            } else {
                Seq::empty()
            },
    {
        proof {
            reveal_strlit("env");
        }
        if !(f.is_pub && is_sensitive_name(f.sig.ident.as_str())) {
            assert(findings_view(out@) =~= findings_view(out@) + Seq::<FindingView>::empty());
            return;
        }
        let env_name = match env_param_name(&f.sig) {
            Some(n) => n,
            None => String::from_str("env"),
        };
        let sensitive_line = first_invoke_wasm_line(&f.block);
        let auth_line = first_valid_auth_line(&f.block, &env_name);
        let unprotected = match (sensitive_line, auth_line) {
            (Some(sensitive), Some(auth)) => auth >= sensitive,
            (Some(_), None) => true,
            (None, _) => false,
        };
        let ghost prev = out@;
        if unprotected {
            let line = match sensitive_line {
                Some(l) => l,
                None => f.span_line,
            };
            out.push(Self::finding_for(f, line));
            proof {
                lemma_findings_view_push(prev, out@.last());
                assert(findings_view(out@) =~= findings_view(prev) + seq![upgrade_finding(f)]);
            }
        } else {
            assert(findings_view(out@) =~= findings_view(prev) + Seq::<FindingView>::empty());
        }
    }
}

impl Check for UnprotectedUpgradeCheck {
    open spec fn name_spec(&self) -> Seq<char> {
        "unprotected-upgrade"@
    }

    open spec fn findings_spec(&self, file: &SourceFile) -> Seq<FindingView> {
        upgrade_in_impls(nodes_file(file), nodes_file(file).len() as int)
    }

    fn name(&self) -> (r: &str) {
        "unprotected-upgrade"
    }

    fn run(&self, file: &SourceFile, source: &str) -> (r: Vec<Finding>) {
        let nodes = file_nodes(file);
        let mut out: Vec<Finding> = Vec::new();
        let mut i: usize = 0;
        while i < nodes.len()
            invariant
                0 <= i <= nodes.len(),
                nodes@ == nodes_file(file),
                findings_view(out@) == upgrade_in_impls(nodes@, i as int),
            decreases nodes.len() - i,
        {
            if let Node::Impl(imp) = nodes[i] {
                if has_contractimpl_attr(&imp.attrs) {
                    let ghost base = findings_view(out@);
                    let mut k: usize = 0;
                    while k < imp.items.len()
                        invariant
                            0 <= k <= imp.items.len(),
                            findings_view(out@) == base + upgrade_in_impl(imp, k as int),
                        decreases imp.items.len() - k,
                    {
                        if let ImplItem::Fn(f) = &imp.items[k] {
                            Self::check_method(f, &mut out);
                        }
                        k += 1;
                    }
                }
            }
            i += 1;
        }
        out
    }
}

}
