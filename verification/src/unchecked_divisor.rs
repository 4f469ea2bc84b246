//! Division by a runtime value (`a / b`, `a /= b`) inside impl methods.
use vstd::prelude::*;
use crate::finding::{findings_view, lemma_findings_view_add, lemma_findings_view_push, Check, Finding, FindingView, Severity};
use crate::syntax::{block_nodes, file_nodes, nodes_block, nodes_file, BinOp, Expr, ImplFn, ImplItem, ItemImpl, Node, SourceFile};

verus! {

/// A division (`/` or `/=`) whose right operand is not a literal; its line.
pub open spec fn unchecked_division_line(n: Node) -> Option<usize> {
    match n {
        Node::Expr(e) => match e {
            Expr::Binary { left, op, right, line } => match op {
                BinOp::Div | BinOp::DivAssign => match **right {
                    Expr::Lit => None,
                    _ => Some(*line),
                },
                _ => None,
            },
            _ => None,
        },
        _ => None,
    }
}

pub open spec fn divisor_finding(line: usize, function_name: Seq<char>) -> FindingView {
    FindingView {
        check_name: "unchecked-divisor"@,
        severity: Severity::High,
        file_path: Seq::empty(),
        line,
        function_name,
        description: "Divisor is not validated to be non-zero; division by zero will panic"@,
        rule_url: None,
        suggestion: Some("Use checked_div or validate divisor > 0 before division"@),
    }
}

/// Findings for the unchecked divisions among the first `k` nodes of a method body.
pub open spec fn divisions_in(ns: Seq<Node>, k: int, function_name: Seq<char>) -> Seq<FindingView>
    decreases k,
{
    if k <= 0 || k > ns.len() {
        Seq::empty()
    } else {
        divisions_in(ns, k - 1, function_name) + match unchecked_division_line(ns[k - 1]) {
            Some(l) => seq![divisor_finding(l, function_name)],
            None => Seq::empty(),
        }
    }
}

/// Findings for the methods among the first `k` items of an impl block: every unchecked
/// division anywhere in a method's body, reported under that method's name.
pub open spec fn divisions_in_impl(imp: &ItemImpl, k: int) -> Seq<FindingView>
    decreases k,
{
    if k <= 0 || k > imp.items.len() {
        Seq::empty()
    } else {
        divisions_in_impl(imp, k - 1) + match &imp.items@[k - 1] {
            ImplItem::Fn(f) => divisions_in(nodes_block(&f.block), nodes_block(&f.block).len() as int, f.sig.ident@),
            ImplItem::Other(_) => Seq::empty(),
        }
    }
}

/// Findings for the impl blocks among the first `k` nodes of a file.
pub open spec fn divisions_in_impls(ns: Seq<Node>, k: int) -> Seq<FindingView>
    decreases k,
{
    if k <= 0 || k > ns.len() {
        Seq::empty()
    } else {
        divisions_in_impls(ns, k - 1) + match ns[k - 1] {
            Node::Impl(imp) => divisions_in_impl(imp, imp.items.len() as int),
            _ => Seq::empty(),
        }
    }
}

fn divisor_finding_exec(line: usize, function_name: &String) -> (r: Finding)
    ensures
        r@ == divisor_finding(line, function_name@),
{
    Finding {
        check_name: String::from_str("unchecked-divisor"),
        severity: Severity::High,
        file_path: String::new(),
        line,
        function_name: function_name.clone(),
        description: String::from_str("Divisor is not validated to be non-zero; division by zero will panic"),
        rule_url: None,
        suggestion: Some(String::from_str("Use checked_div or validate divisor > 0 before division")),
    }
}

fn method_divisions(f: &ImplFn) -> (r: Vec<Finding>)
    ensures
        findings_view(r@) == divisions_in(nodes_block(&f.block), nodes_block(&f.block).len() as int, f.sig.ident@),
{
    let nodes = block_nodes(&f.block);
    let mut out: Vec<Finding> = Vec::new();
    let mut i: usize = 0;
    while i < nodes.len()
        invariant
            0 <= i <= nodes.len(),
            nodes@ == nodes_block(&f.block),
            findings_view(out@) == divisions_in(nodes@, i as int, f.sig.ident@),
        decreases nodes.len() - i,
    {
        let ghost prev = out@;
        if let Node::Expr(e) = nodes[i] {
            if let Expr::Binary { left, op, right, line } = e {
                let is_div = match op {
                    BinOp::Div => true,
                    BinOp::DivAssign => true,
                    _ => false,
                };
                let lit = match &**right {
                    Expr::Lit => true,
                    _ => false,
                };
                if is_div && !lit {
                    out.push(divisor_finding_exec(*line, &f.sig.ident));
                    proof {
                        lemma_findings_view_push(prev, out@.last());
                        assert(out@ =~= prev.push(out@.last()));
                    }
                }
            }
        }
        i += 1;
    }
    out
}

fn impl_divisions(imp: &ItemImpl, out: &mut Vec<Finding>)
    ensures
        findings_view(final(out)@) == findings_view(old(out)@) + divisions_in_impl(imp, imp.items.len() as int),
{
    let ghost start = findings_view(out@);
    let mut k: usize = 0;
    while k < imp.items.len()
        invariant
            0 <= k <= imp.items.len(),
            findings_view(out@) == start + divisions_in_impl(imp, k as int),
        decreases imp.items.len() - k,
    {
        if let ImplItem::Fn(f) = &imp.items[k] {
            let mut found = method_divisions(f);
            let ghost a = out@;
            let ghost b = found@;
            out.append(&mut found);
            proof {
                lemma_findings_view_add(a, b);
            }
        }
        k += 1;
    }
}

/// Every impl method anywhere in the file (including impls nested in bodies and
/// modules): each division by a non-literal divisor is reported with the method's name.
pub struct UncheckedDivisorCheck;

impl Check for UncheckedDivisorCheck {
    open spec fn name_spec(&self) -> Seq<char> {
        "unchecked-divisor"@
    }

    open spec fn findings_spec(&self, file: &SourceFile) -> Seq<FindingView> {
        divisions_in_impls(nodes_file(file), nodes_file(file).len() as int)
    }

    fn name(&self) -> (r: &str) {
        "unchecked-divisor"
    }

    fn run(&self, file: &SourceFile, source: &str) -> (r: Vec<Finding>) {
        let nodes = file_nodes(file);
        let mut out: Vec<Finding> = Vec::new();
        let mut i: usize = 0;
        while i < nodes.len()
            invariant
                0 <= i <= nodes.len(),
                nodes@ == nodes_file(file),
                findings_view(out@) == divisions_in_impls(nodes@, i as int),
            decreases nodes.len() - i,
        {
            if let Node::Impl(imp) = nodes[i] {
                impl_divisions(imp, &mut out);
            }
            i += 1;
        }
        out
    }
}

}
