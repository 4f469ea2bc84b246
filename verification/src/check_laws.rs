//! What holds of every built-in check: each finding it reports carries the check's own
//! name (the name `list-checks` shows, `--disable-check` and suppression comments use);
//! and the admin check's extra names only ever add findings.
use vstd::prelude::*;
use crate::admin::{admin_findings, admin_flagged, is_sensitive_name_spec};
use crate::annotations::annotation_findings;
use crate::balance::{balance_findings, unguarded_transfers};
use crate::checks::BuiltinCheck;
use crate::finding::{Check, FindingView};
use crate::global_state::static_findings;
use crate::reinit::reinit_findings;
use crate::syntax::{nodes_block, ImplFn, ImplItem, ItemImpl, ItemStatic, Node, SourceFile};
use crate::transfer::transfer_findings;
use crate::unchecked_divisor::{divisions_in, divisions_in_impl, divisions_in_impls};
use crate::unprotected_upgrade::{upgrade_in_impl, upgrade_in_impls};
use crate::util::{contract_methods, views};
use crate::vec_growth::vec_growth_findings;

verus! {

/// Every finding of `s` carries the check name `name`.
pub open spec fn all_named(s: Seq<FindingView>, name: Seq<char>) -> bool {
    forall|i: int| 0 <= i < s.len() ==> (#[trigger] s[i]).check_name == name
}

proof fn lemma_named_add(a: Seq<FindingView>, b: Seq<FindingView>, name: Seq<char>)
    requires
        all_named(a, name),
        all_named(b, name),
    ensures
        all_named(a + b, name),
{
    assert forall|i: int| 0 <= i < (a + b).len() implies (#[trigger] (a + b)[i]).check_name == name by {
        if i >= a.len() {
            assert((a + b)[i] == b[i - a.len()]);
        }
    }
}

proof fn lemma_admin_named(ms: Seq<(&ItemImpl, &ImplFn)>, extra: Seq<Seq<char>>, n: int)
    ensures
        all_named(admin_findings(ms, extra, n), "unprotected-admin"@),
    decreases n,
{
    if n > 0 && n <= ms.len() {
        lemma_admin_named(ms, extra, n - 1);
        let tail = if admin_flagged(ms[n - 1].1, extra) {
            seq![crate::admin::admin_finding(ms[n - 1].1)]
        } else {
            Seq::empty()
        };
        lemma_named_add(admin_findings(ms, extra, n - 1), tail, "unprotected-admin"@);
    }
}

proof fn lemma_annotation_named(impls: Seq<(Seq<char>, usize)>, structs: Seq<Seq<char>>, k: int)
    ensures
        all_named(annotation_findings(impls, structs, k), "missing-contract-annotation"@),
    decreases k,
{
    if k > 0 && k <= impls.len() {
        lemma_annotation_named(impls, structs, k - 1);
        let tail = if structs.contains(impls[k - 1].0) {
            Seq::empty()
        } else {
            seq![crate::annotations::annotation_finding(impls[k - 1].0, impls[k - 1].1)]
        };
        lemma_named_add(annotation_findings(impls, structs, k - 1), tail, "missing-contract-annotation"@);
    }
}

proof fn lemma_unguarded_named(ts: Seq<(usize, usize)>, bs: Seq<(usize, usize)>, k: int, name: Seq<char>)
    ensures
        all_named(unguarded_transfers(ts, bs, k, name), "missing-balance-check"@),
    decreases k,
{
    if k > 0 && k <= ts.len() {
        lemma_unguarded_named(ts, bs, k - 1, name);
        let prev = if k == 1 {
            (0usize, 0usize)
        } else {
            ts[k - 2]
        };
        let tail = if crate::balance::guarded(prev, ts[k - 1], bs) {
            Seq::empty()
        } else {
            seq![crate::balance::balance_finding(ts[k - 1].0, name)]
        };
        lemma_named_add(unguarded_transfers(ts, bs, k - 1, name), tail, "missing-balance-check"@);
    }
}

proof fn lemma_balance_named(ms: Seq<(&ItemImpl, &ImplFn)>, n: int)
    ensures
        all_named(balance_findings(ms, n), "missing-balance-check"@),
    decreases n,
{
    if n > 0 && n <= ms.len() {
        lemma_balance_named(ms, n - 1);
        let f = ms[n - 1].1;
        let ns = nodes_block(&f.block);
        let st = crate::balance::balance_scan(ns, ns.len() as int);
        let ts = crate::balance::sort_positions(st.transfers);
        lemma_unguarded_named(ts, st.balances, ts.len() as int, f.sig.ident@);
        lemma_named_add(balance_findings(ms, n - 1), crate::balance::balance_method_findings(f), "missing-balance-check"@);
    }
}

proof fn lemma_static_named(ss: Seq<&ItemStatic>, k: int)
    ensures
        all_named(static_findings(ss, k), "mutable-global-state"@),
    decreases k,
{
    if k > 0 && k <= ss.len() {
        lemma_static_named(ss, k - 1);
        let tail = if ss[k - 1].mutable {
            seq![crate::global_state::static_finding(ss[k - 1])]
        } else {
            Seq::empty()
        };
        lemma_named_add(static_findings(ss, k - 1), tail, "mutable-global-state"@);
    }
}

proof fn lemma_reinit_named(ms: Seq<(&ItemImpl, &ImplFn)>, n: int)
    ensures
        all_named(reinit_findings(ms, n), "re-initialization-risk"@),
    decreases n,
{
    if n > 0 && n <= ms.len() {
        lemma_reinit_named(ms, n - 1);
        let tail = if crate::reinit::reinit_flagged(ms[n - 1].1) {
            seq![crate::reinit::reinit_finding(ms[n - 1].1)]
        } else {
            Seq::empty()
        };
        lemma_named_add(reinit_findings(ms, n - 1), tail, "re-initialization-risk"@);
    }
}

proof fn lemma_transfer_named(ms: Seq<(&ItemImpl, &ImplFn)>, n: int)
    ensures
        all_named(transfer_findings(ms, n), "self-transfer"@),
    decreases n,
{
    if n > 0 && n <= ms.len() {
        lemma_transfer_named(ms, n - 1);
        let tail = if crate::transfer::transfer_flagged(ms[n - 1].1) {
            seq![crate::transfer::transfer_finding(ms[n - 1].1)]
        } else {
            Seq::empty()
        };
        lemma_named_add(transfer_findings(ms, n - 1), tail, "self-transfer"@);
    }
}

proof fn lemma_vec_growth_named(ms: Seq<(&ItemImpl, &ImplFn)>, n: int)
    ensures
        all_named(vec_growth_findings(ms, n), "unbounded-vec-growth"@),
    decreases n,
{
    if n > 0 && n <= ms.len() {
        lemma_vec_growth_named(ms, n - 1);
        let tail = if crate::vec_growth::vec_growth_flagged(&ms[n - 1].1.block) {
            seq![crate::vec_growth::vec_growth_finding(ms[n - 1].1)]
        } else {
            Seq::empty()
        };
        lemma_named_add(vec_growth_findings(ms, n - 1), tail, "unbounded-vec-growth"@);
    }
}

proof fn lemma_divisions_named(ns: Seq<Node>, k: int, function_name: Seq<char>)
    ensures
        all_named(divisions_in(ns, k, function_name), "unchecked-divisor"@),
    decreases k,
{
    if k > 0 && k <= ns.len() {
        lemma_divisions_named(ns, k - 1, function_name);
        let tail = match crate::unchecked_divisor::unchecked_division_line(ns[k - 1]) {
            Some(l) => seq![crate::unchecked_divisor::divisor_finding(l, function_name)],
            None => Seq::empty(),
        };
        lemma_named_add(divisions_in(ns, k - 1, function_name), tail, "unchecked-divisor"@);
    }
}

proof fn lemma_divisions_impl_named(imp: &ItemImpl, k: int)
    ensures
        all_named(divisions_in_impl(imp, k), "unchecked-divisor"@),
    decreases k,
{
    if k > 0 && k <= imp.items.len() {
        lemma_divisions_impl_named(imp, k - 1);
        let tail = match &imp.items@[k - 1] {
            ImplItem::Fn(f) => {
                lemma_divisions_named(nodes_block(&f.block), nodes_block(&f.block).len() as int, f.sig.ident@);
                divisions_in(nodes_block(&f.block), nodes_block(&f.block).len() as int, f.sig.ident@)
            },
            ImplItem::Other(_) => Seq::empty(),
        };
        lemma_named_add(divisions_in_impl(imp, k - 1), tail, "unchecked-divisor"@);
    }
}

proof fn lemma_divisions_impls_named(ns: Seq<Node>, k: int)
    ensures
        all_named(divisions_in_impls(ns, k), "unchecked-divisor"@),
    decreases k,
{
    if k > 0 && k <= ns.len() {
        lemma_divisions_impls_named(ns, k - 1);
        let tail = match ns[k - 1] {
            Node::Impl(imp) => {
                lemma_divisions_impl_named(imp, imp.items.len() as int);
                divisions_in_impl(imp, imp.items.len() as int)
            },
            _ => Seq::empty(),
        };
        lemma_named_add(divisions_in_impls(ns, k - 1), tail, "unchecked-divisor"@);
    }
}

proof fn lemma_upgrade_impl_named(imp: &ItemImpl, k: int)
    ensures
        all_named(upgrade_in_impl(imp, k), "unprotected-upgrade"@),
    decreases k,
{
    if k > 0 && k <= imp.items.len() {
        lemma_upgrade_impl_named(imp, k - 1);
        let tail = match &imp.items@[k - 1] {
            ImplItem::Fn(f) => if crate::unprotected_upgrade::upgrade_flagged(f) {
                seq![crate::unprotected_upgrade::upgrade_finding(f)]
            } else {
                Seq::empty()
            },
            ImplItem::Other(_) => Seq::empty(),
        };
        lemma_named_add(upgrade_in_impl(imp, k - 1), tail, "unprotected-upgrade"@);
    }
}

proof fn lemma_upgrade_impls_named(ns: Seq<Node>, k: int)
    ensures
        all_named(upgrade_in_impls(ns, k), "unprotected-upgrade"@),
    decreases k,
{
    if k > 0 && k <= ns.len() {
        lemma_upgrade_impls_named(ns, k - 1);
        let tail = match ns[k - 1] {
            Node::Impl(imp) => if crate::unprotected_upgrade::has_contractimpl_attr_spec(imp.attrs@) {
                lemma_upgrade_impl_named(imp, imp.items.len() as int);
                upgrade_in_impl(imp, imp.items.len() as int)
            } else {
                Seq::empty()
            },
            _ => Seq::empty(),
        };
        lemma_named_add(upgrade_in_impls(ns, k - 1), tail, "unprotected-upgrade"@);
    }
}

/// Every finding a built-in check reports for any file carries that check's name.
pub proof fn lemma_findings_carry_check_name(c: BuiltinCheck, file: &SourceFile)
    ensures
        all_named(c.findings_spec(file), c.name_spec()),
{
    let ms = contract_methods(file);
    match c {
        BuiltinCheck::UnprotectedAdmin(a) => lemma_admin_named(ms, views(a.extra_names@), ms.len() as int),
        BuiltinCheck::MissingContractAnnotation(_) => {
            let impls = crate::annotations::contract_impls(&file.items, file.items.len() as int);
            lemma_annotation_named(
                impls,
                crate::annotations::contract_structs(&file.items, file.items.len() as int),
                impls.len() as int,
            );
        },
        BuiltinCheck::SelfTransfer(_) => lemma_transfer_named(ms, ms.len() as int),
        BuiltinCheck::MutableGlobalState(_) => {
            let ss = crate::global_state::statics_in_items(&file.items, file.items.len() as int, false);
            lemma_static_named(ss, ss.len() as int);
        },
        BuiltinCheck::ReInitializationRisk(_) => lemma_reinit_named(ms, ms.len() as int),
        BuiltinCheck::MissingBalance(_) => lemma_balance_named(ms, ms.len() as int),
        BuiltinCheck::UnboundedVecGrowth(_) => lemma_vec_growth_named(ms, ms.len() as int),
        BuiltinCheck::UncheckedDivisor(_) => {
            let ns = crate::syntax::nodes_file(file);
            lemma_divisions_impls_named(ns, ns.len() as int);
        },
        BuiltinCheck::UnprotectedUpgrade(_) => {
            let ns = crate::syntax::nodes_file(file);
            lemma_upgrade_impls_named(ns, ns.len() as int);
        },
    }
}

/// `a` is a sub-list of `b`: `b` with some of its findings left out, the rest in order.
pub open spec fn sublist(a: Seq<FindingView>, b: Seq<FindingView>) -> bool
    decreases b.len(),
{
    if a.len() == 0 {
        true
    } else if b.len() == 0 {
        false
    } else if a.last() == b.last() {
        sublist(a.drop_last(), b.drop_last())
    } else {
        sublist(a, b.drop_last())
    }
}

proof fn lemma_sublist_drop_last(a: Seq<FindingView>, b: Seq<FindingView>)
    requires
        sublist(a, b),
        a.len() > 0,
    ensures
        sublist(a.drop_last(), b),
    decreases b.len(), 0int,
{
    if b.len() > 0 {
        if a.last() == b.last() {
            assert(sublist(a.drop_last(), b.drop_last()));
            lemma_sublist_push(a.drop_last(), b.drop_last(), b.last());
            assert(b.drop_last().push(b.last()) =~= b);
        } else {
            lemma_sublist_drop_last(a, b.drop_last());
            lemma_sublist_push(a.drop_last(), b.drop_last(), b.last());
            assert(b.drop_last().push(b.last()) =~= b);
        }
    }
}

proof fn lemma_sublist_push(a: Seq<FindingView>, b: Seq<FindingView>, y: FindingView)
    requires
        sublist(a, b),
    ensures
        sublist(a, b.push(y)),
    decreases b.len(), 1int,
{
    assert(b.push(y).drop_last() =~= b);
    if a.len() > 0 && a.last() == y {
        lemma_sublist_drop_last(a, b);
    }
}

proof fn lemma_admin_extra_sublist(ms: Seq<(&ItemImpl, &ImplFn)>, extra: Seq<Seq<char>>, n: int)
    ensures
        sublist(admin_findings(ms, Seq::empty(), n), admin_findings(ms, extra, n)),
    decreases n,
{
    if n > 0 && n <= ms.len() {
        lemma_admin_extra_sublist(ms, extra, n - 1);
        let a = admin_findings(ms, Seq::empty(), n - 1);
        let b = admin_findings(ms, extra, n - 1);
        let f = ms[n - 1].1;
        let x = crate::admin::admin_finding(f);
        if admin_flagged(f, Seq::empty()) {
            assert(is_sensitive_name_spec(f.sig.ident@, extra));
            assert(admin_flagged(f, extra));
            assert(a + seq![x] =~= a.push(x));
            assert(b + seq![x] =~= b.push(x));
            assert(a.push(x).drop_last() =~= a);
            assert(b.push(x).drop_last() =~= b);
        } else {
            assert(a + Seq::<FindingView>::empty() =~= a);
            if admin_flagged(f, extra) {
                assert(b + seq![x] =~= b.push(x));
                lemma_sublist_push(a, b, x);
            } else {
                assert(b + Seq::<FindingView>::empty() =~= b);
            }
        }
    }
}

/// Adding project-specific sensitive names to the admin check only adds findings: the
/// check's findings without extra names are a sub-list of its findings with them.
pub proof fn lemma_extra_names_only_add(file: &SourceFile, extra: Seq<Seq<char>>)
    ensures
        sublist(
            admin_findings(contract_methods(file), Seq::empty(), contract_methods(file).len() as int),
            admin_findings(contract_methods(file), extra, contract_methods(file).len() as int),
        ),
{
    lemma_admin_extra_sublist(contract_methods(file), extra, contract_methods(file).len() as int);
}

} // verus!
