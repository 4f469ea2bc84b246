//! Detects `static mut` items in Soroban contracts (mutable global state).
use vstd::prelude::*;
use crate::finding::{findings_view, lemma_findings_view_push, Check, Finding, FindingView, Severity};
use crate::syntax::{ImplItem, Item, ItemImpl, ItemStatic, SourceFile, Stmt};
use crate::util::{is_test_module, is_test_module_spec};

verus! {

/// `static` items declared directly in a method body's statements, for the first `k`
/// statements.
pub open spec fn statics_in_stmts<'a>(v: &'a Vec<Stmt>, k: int) -> Seq<&'a ItemStatic>
    decreases k,
{
    if k <= 0 || k > v.len() {
        Seq::empty()
    } else {
        statics_in_stmts(v, k - 1) + match &v@[k - 1] {
            Stmt::Item(it) => match it {
                Item::Static(s) => seq![s],
                _ => Seq::empty(),
            },
            _ => Seq::empty(),
        }
    }
}

/// Statics of the method bodies among the first `k` items of an impl block.
pub open spec fn statics_in_impl<'a>(imp: &'a ItemImpl, k: int) -> Seq<&'a ItemStatic>
    decreases k,
{
    if k <= 0 || k > imp.items.len() {
        Seq::empty()
    } else {
        statics_in_impl(imp, k - 1) + match &imp.items@[k - 1] {
            ImplItem::Fn(f) => statics_in_stmts(&f.block.stmts, f.block.stmts.len() as int),
            ImplItem::Other(_) => Seq::empty(),
        }
    }
}

/// Every `static` among the first `n` items: module-level ones, descending into inline
/// modules, and those declared directly in impl method bodies; nothing inside a test
/// module (`#[cfg(test)]`, or named `tests`/`test`) counts.
pub open spec fn statics_in_items<'a>(v: &'a Vec<Item>, n: int, in_test: bool) -> Seq<&'a ItemStatic>
    decreases *v, n,
{
    if n <= 0 || n > v.len() {
        Seq::empty()
    } else {
        statics_in_items(v, n - 1, in_test) + statics_in_item(&v@[n - 1], in_test)
    }
}

pub open spec fn statics_in_item<'a>(it: &'a Item, in_test: bool) -> Seq<&'a ItemStatic>
    decreases *it, 1int,
{
    match it {
        Item::Mod { ident, attrs, content } => match content {
            Some(c) => statics_in_items(c, c.len() as int, in_test || is_test_module_spec(ident@, attrs@)),
            None => Seq::empty(),
        },
        Item::Static(s) => if in_test {
            Seq::empty()
        } else {
            seq![s]
        },
        Item::Impl(imp) => if in_test {
            Seq::empty()
        } else {
            statics_in_impl(imp, imp.items.len() as int)
        },
        _ => Seq::empty(),
    }
}

pub open spec fn static_finding(s: &ItemStatic) -> FindingView {
    FindingView {
        check_name: "mutable-global-state"@,
        severity: Severity::High,
        file_path: Seq::empty(),
        line: s.line,
        function_name: Seq::empty(),
        description: "`static mut "@ + s.ident@
            + "` introduces mutable global state. In Soroban, contract instances are stateless between invocations \u{2014} `static mut` is unsafe and its value is not persisted on-chain."@,
        rule_url: Some("https://github.com/SorobanGuard/Guard-CLI/blob/main/docs/checks.md#mutable-global-state-high"@),
        suggestion: Some(
            "Replace `static mut` with `env.storage().persistent()` or `env.storage().instance()` for on-chain state."@,
        ),
    }
}

/// Findings for the mutable statics among the first `k`.
pub open spec fn static_findings(ss: Seq<&ItemStatic>, k: int) -> Seq<FindingView>
    decreases k,
{
    if k <= 0 || k > ss.len() {
        Seq::empty()
    } else {
        static_findings(ss, k - 1) + if ss[k - 1].mutable {
            seq![static_finding(ss[k - 1])]
        } else {
            Seq::empty()
        }
    }
}

fn collect_static_items_from_stmts<'a>(stmts: &'a Vec<Stmt>, out: &mut Vec<&'a ItemStatic>)
    ensures
        final(out)@ == old(out)@ + statics_in_stmts(stmts, stmts.len() as int),
{
    let ghost start = out@;
    let mut i: usize = 0;
    while i < stmts.len()
        invariant
            0 <= i <= stmts.len(),
            out@ == start + statics_in_stmts(stmts, i as int),
        decreases stmts.len() - i,
    {
        if let Stmt::Item(it) = &stmts[i] {
            if let Item::Static(s) = it {
                out.push(s);
            }
        }
        i += 1;
        assert(out@ =~= start + statics_in_stmts(stmts, i as int));
    }
}

fn collect_static_items<'a>(items: &'a Vec<Item>, in_test_mod: bool, out: &mut Vec<&'a ItemStatic>)
    ensures
        final(out)@ == old(out)@ + statics_in_items(items, items.len() as int, in_test_mod),
    decreases *items, items.len() + 1,
{
    let ghost start = out@;
    let mut i: usize = 0;
    while i < items.len()
        invariant
            0 <= i <= items.len(),
            out@ == start + statics_in_items(items, i as int, in_test_mod),
        decreases items.len() - i,
    {
        proof {
            assert(decreases_to!(*items => items@[i as int]));
        }
        let ghost before = out@;
        match &items[i] {
            Item::Mod { ident, attrs, content } => {
                let is_test = in_test_mod || is_test_module(ident, attrs);
                if let Some(nested) = content {
                    collect_static_items(nested, is_test, out);
                }
            },
            Item::Static(s) => {
                if !in_test_mod {
                    out.push(s);
                }
            },
            Item::Impl(imp) => {
                if !in_test_mod {
                    let ghost b2 = out@;
                    let mut k: usize = 0;
                    while k < imp.items.len()
                        invariant
                            0 <= k <= imp.items.len(),
                            out@ == b2 + statics_in_impl(imp, k as int),
                        decreases imp.items.len() - k,
                    {
                        if let ImplItem::Fn(method) = &imp.items[k] {
                            collect_static_items_from_stmts(&method.block.stmts, out);
                        }
                        k += 1;
                        assert(out@ =~= b2 + statics_in_impl(imp, k as int));
                    }
                }
            },
            _ => {},
        }
        assert(out@ =~= before + statics_in_item(&items@[i as int], in_test_mod));
        i += 1;
        assert(out@ =~= start + statics_in_items(items, i as int, in_test_mod));
    }
}

/// Every `static mut` at module level (including inline modules), or declared directly
/// in an impl method body, outside test modules.
pub struct MutableGlobalStateCheck;

impl MutableGlobalStateCheck {
    fn finding_for(s: &ItemStatic) -> (r: Finding)
        ensures
            r@ == static_finding(s),
    {
        let mut description = String::from_str("`static mut ");
        description.append(s.ident.as_str());
        description.append(
            "` introduces mutable global state. In Soroban, contract instances are stateless between invocations \u{2014} `static mut` is unsafe and its value is not persisted on-chain.",
        );
        Finding {
            check_name: String::from_str("mutable-global-state"),
            severity: Severity::High,
            file_path: String::new(),
            line: s.line,
            function_name: String::new(),
            description,
            rule_url: Some(
                String::from_str("https://github.com/SorobanGuard/Guard-CLI/blob/main/docs/checks.md#mutable-global-state-high"),
            ),
            suggestion: Some(
                String::from_str(
                    "Replace `static mut` with `env.storage().persistent()` or `env.storage().instance()` for on-chain state.",
                ),
            ),
        }
    }
}

impl Check for MutableGlobalStateCheck {
    open spec fn name_spec(&self) -> Seq<char> {
        "mutable-global-state"@
    }

    open spec fn findings_spec(&self, file: &SourceFile) -> Seq<FindingView> {
        let ss = statics_in_items(&file.items, file.items.len() as int, false);
        static_findings(ss, ss.len() as int)
    }

    fn name(&self) -> (r: &str) {
        "mutable-global-state"
    }

    fn run(&self, file: &SourceFile, source: &str) -> (r: Vec<Finding>) {
        let mut statics: Vec<&ItemStatic> = Vec::new();
        collect_static_items(&file.items, false, &mut statics);
        assert(statics@ =~= statics_in_items(&file.items, file.items.len() as int, false));
        let mut out: Vec<Finding> = Vec::new();
        let mut k: usize = 0;
        while k < statics.len()
            invariant
                0 <= k <= statics.len(),
                findings_view(out@) == static_findings(statics@, k as int),
            decreases statics.len() - k,
        {
            let s = statics[k];
            let ghost prev = out@;
            if s.mutable {
                out.push(Self::finding_for(s));
                proof {
                    lemma_findings_view_push(prev, out@.last());
                    assert(out@ =~= prev.push(out@.last()));
                }
            }
            k += 1;
        }
        out
    }
}

}
