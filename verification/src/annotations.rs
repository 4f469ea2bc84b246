//! Detect `#[contractimpl]` blocks without a corresponding `#[contract]` struct in the same file.
use vstd::prelude::*;
use crate::finding::{findings_view, lemma_findings_view_push, Check, Finding, FindingView, Severity};
use crate::syntax::{Item, SourceFile, Ty};
use crate::util::{has_attr, has_attr_spec, vec_contains_str, views};

verus! {

/// The implemented type's name as a single identifier, `unknown` otherwise.
pub open spec fn impl_type_name(t: Ty) -> Seq<char> {
    match t {
        Ty::Path(p) => match p.ident_of() {
            Some(id) => id,
            None => "unknown"@,
        },
        _ => "unknown"@,
    }
}

/// Names of `#[contract]` structs among the first `n` items, descending into inline modules.
pub open spec fn contract_structs(v: &Vec<Item>, n: int) -> Seq<Seq<char>>
    decreases *v, n,
{
    if n <= 0 || n > v.len() {
        Seq::empty()
    } else {
        contract_structs(v, n - 1) + contract_structs_item(&v@[n - 1])
    }
}

pub open spec fn contract_structs_item(it: &Item) -> Seq<Seq<char>>
    decreases *it, 1int,
{
    match it {
        Item::Mod { ident, attrs, content } => match content {
            Some(c) => contract_structs(c, c.len() as int),
            None => Seq::empty(),
        },
        Item::Struct { ident, attrs } => if has_attr_spec(attrs@, "contract"@) {
            seq![ident@]
        } else {
            Seq::empty()
        },
        _ => Seq::empty(),
    }
}

/// `#[contractimpl]` blocks among the first `n` items (descending into inline modules):
/// the implemented type's name and the block's line.
pub open spec fn contract_impls(v: &Vec<Item>, n: int) -> Seq<(Seq<char>, usize)>
    decreases *v, n,
{
    if n <= 0 || n > v.len() {
        Seq::empty()
    } else {
        contract_impls(v, n - 1) + contract_impls_item(&v@[n - 1])
    }
}

pub open spec fn contract_impls_item(it: &Item) -> Seq<(Seq<char>, usize)>
    decreases *it, 1int,
{
    match it {
        Item::Mod { ident, attrs, content } => match content {
            Some(c) => contract_impls(c, c.len() as int),
            None => Seq::empty(),
        },
        Item::Impl(imp) => if has_attr_spec(imp.attrs@, "contractimpl"@) {
            seq![(impl_type_name(imp.self_ty), imp.line)]
        } else {
            Seq::empty()
        },
        _ => Seq::empty(),
    }
}

pub open spec fn annotation_finding(impl_name: Seq<char>, line: usize) -> FindingView {
    FindingView {
        check_name: "missing-contract-annotation"@,
        severity: Severity::Low,
        file_path: Seq::empty(),
        line,
        function_name: impl_name,
        description: "`#[contractimpl]` found for `"@ + impl_name
            + "` but no `#[contract]` struct exists in this file. This is likely a copy-paste error; add `#[contract]` to the struct definition."@,
        rule_url: Some(
            "https://github.com/SorobanGuard/Guard-CLI/blob/main/docs/checks.md#missing-contract-annotation-low"@,
        ),
        suggestion: Some("Add `#[contract]` to the `"@ + impl_name + "` struct definition."@),
    }
}

/// Findings for the first `k` `#[contractimpl]` blocks whose type is not a `#[contract]` struct.
pub open spec fn annotation_findings(impls: Seq<(Seq<char>, usize)>, structs: Seq<Seq<char>>, k: int) -> Seq<FindingView>
    decreases k,
{
    if k <= 0 || k > impls.len() {
        Seq::empty()
    } else {
        annotation_findings(impls, structs, k - 1) + if structs.contains(impls[k - 1].0) {
            Seq::empty()
        } else {
            seq![annotation_finding(impls[k - 1].0, impls[k - 1].1)]
        }
    }
}

fn impl_type_label(t: &Ty) -> (r: String)
    ensures
        r@ == impl_type_name(*t),
{
    match t {
        Ty::Path(p) => match p.get_ident() {
            Some(id) => id.clone(),
            None => String::from_str("unknown"),
        },
        _ => String::from_str("unknown"),
    }
}

/// Walk `items` (recursing into inline modules) collecting every `#[contract]` struct
/// name and every `#[contractimpl]` block's target type name with its source line.
fn collect_items(items: &Vec<Item>, structs: &mut Vec<String>, impls: &mut Vec<(String, usize)>)
    ensures
        views(final(structs)@) == views(old(structs)@) + contract_structs(items, items.len() as int),
        final(impls)@.map_values(|p: (String, usize)| (p.0@, p.1)) == old(impls)@.map_values(
            |p: (String, usize)| (p.0@, p.1),
        ) + contract_impls(items, items.len() as int),
    decreases *items, items.len() + 1,
{
    let ghost s0 = views(structs@);
    let ghost i0 = impls@.map_values(|p: (String, usize)| (p.0@, p.1));
    let mut i: usize = 0;
    while i < items.len()
        invariant
            0 <= i <= items.len(),
            views(structs@) == s0 + contract_structs(items, i as int),
            impls@.map_values(|p: (String, usize)| (p.0@, p.1)) == i0 + contract_impls(items, i as int),
        decreases items.len() - i,
    {
        proof {
            assert(decreases_to!(*items => items@[i as int]));
        }
        let ghost sb = views(structs@);
        let ghost ib = impls@.map_values(|p: (String, usize)| (p.0@, p.1));
        match &items[i] {
            Item::Mod { ident, attrs, content } => {
                if let Some(nested) = content {
                    collect_items(nested, structs, impls);
                }
                assert(views(structs@) =~= sb + contract_structs_item(&items@[i as int]));
                assert(impls@.map_values(|p: (String, usize)| (p.0@, p.1)) =~= ib + contract_impls_item(&items@[i as int]));
            },
            Item::Struct { ident, attrs } => {
                if has_attr(attrs, "contract") {
                    structs.push(ident.clone());
                }
                assert(views(structs@) =~= sb + contract_structs_item(&items@[i as int]));
                assert(impls@.map_values(|p: (String, usize)| (p.0@, p.1)) =~= ib + contract_impls_item(&items@[i as int]));
            },
            Item::Impl(imp) => {
                if has_attr(&imp.attrs, "contractimpl") {
                    impls.push((impl_type_label(&imp.self_ty), imp.line));
                }
                assert(views(structs@) =~= sb + contract_structs_item(&items@[i as int]));
                assert(impls@.map_values(|p: (String, usize)| (p.0@, p.1)) =~= ib + contract_impls_item(&items@[i as int]));
            },
            _ => {
                assert(views(structs@) =~= sb + contract_structs_item(&items@[i as int]));
                assert(impls@.map_values(|p: (String, usize)| (p.0@, p.1)) =~= ib + contract_impls_item(&items@[i as int]));
            },
        }
        i += 1;
    }
}

/// Every `#[contractimpl]` block (the attribute's path ending in `contractimpl`) whose
/// implemented type has no `#[contract]` struct anywhere in the file.
pub struct MissingContractAnnotationCheck;

impl MissingContractAnnotationCheck {
    fn finding_for(impl_name: &String, line: usize) -> (r: Finding)
        ensures
            r@ == annotation_finding(impl_name@, line),
    {
        let mut description = String::from_str("`#[contractimpl]` found for `");
        description.append(impl_name.as_str());
        description.append(
            "` but no `#[contract]` struct exists in this file. This is likely a copy-paste error; add `#[contract]` to the struct definition.",
        );
        let mut suggestion = String::from_str("Add `#[contract]` to the `");
        suggestion.append(impl_name.as_str());
        suggestion.append("` struct definition.");
        Finding {
            check_name: String::from_str("missing-contract-annotation"),
            severity: Severity::Low,
            file_path: String::new(),
            line,
            function_name: impl_name.clone(),
            description,
            rule_url: Some(
                String::from_str("https://github.com/SorobanGuard/Guard-CLI/blob/main/docs/checks.md#missing-contract-annotation-low"),
            ),
            suggestion: Some(suggestion),
        }
    }
}

impl Check for MissingContractAnnotationCheck {
    open spec fn name_spec(&self) -> Seq<char> {
        "missing-contract-annotation"@
    }

    open spec fn findings_spec(&self, file: &SourceFile) -> Seq<FindingView> {
        let impls = contract_impls(&file.items, file.items.len() as int);
        annotation_findings(impls, contract_structs(&file.items, file.items.len() as int), impls.len() as int)
    }

    fn name(&self) -> (r: &str) {
        "missing-contract-annotation"
    }

    fn run(&self, file: &SourceFile, source: &str) -> (r: Vec<Finding>) {
        let mut contract_struct_names: Vec<String> = Vec::new();
        let mut contractimpls: Vec<(String, usize)> = Vec::new();
        collect_items(&file.items, &mut contract_struct_names, &mut contractimpls);
        assert(views(contract_struct_names@) =~= contract_structs(&file.items, file.items.len() as int));
        let ghost impls = contractimpls@.map_values(|p: (String, usize)| (p.0@, p.1));
        assert(impls =~= contract_impls(&file.items, file.items.len() as int));
        let mut out: Vec<Finding> = Vec::new();
        let mut k: usize = 0;
        while k < contractimpls.len()
            invariant
                0 <= k <= contractimpls.len(),
                impls == contractimpls@.map_values(|p: (String, usize)| (p.0@, p.1)),
                findings_view(out@) == annotation_findings(impls, views(contract_struct_names@), k as int),
            decreases contractimpls.len() - k,
        {
            let (ref impl_name, line) = contractimpls[k];
            let ghost prev = out@;
            assert(impls[k as int] == (impl_name@, line));
            if !vec_contains_str(&contract_struct_names, impl_name.as_str()) {
                out.push(Self::finding_for(impl_name, line));
                proof {
                    lemma_findings_view_push(prev, out@.last());
                    assert(out@ =~= prev.push(out@.last()));
                }
            }
            k += 1;
        }
        out
    }
}

}
