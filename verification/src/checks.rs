//! The built-in checks and the registry that lists them.
use vstd::prelude::*;
use crate::admin::UnprotectedAdminCheck;
use crate::annotations::MissingContractAnnotationCheck;
use crate::balance::MissingBalanceCheck;
use crate::finding::{Check, Finding, FindingView};
use crate::global_state::MutableGlobalStateCheck;
use crate::reinit::ReInitializationRiskCheck;
use crate::syntax::SourceFile;
use crate::transfer::SelfTransferCheck;
use crate::unchecked_divisor::UncheckedDivisorCheck;
use crate::unprotected_upgrade::UnprotectedUpgradeCheck;
use crate::util::{vec_contains_str, views};
use crate::vec_growth::UnboundedVecGrowthCheck;

verus! {

/// One of the built-in checks.
pub enum BuiltinCheck {
    UnprotectedAdmin(UnprotectedAdminCheck),
    MissingContractAnnotation(MissingContractAnnotationCheck),
    SelfTransfer(SelfTransferCheck),
    MutableGlobalState(MutableGlobalStateCheck),
    ReInitializationRisk(ReInitializationRiskCheck),
    MissingBalance(MissingBalanceCheck),
    UnboundedVecGrowth(UnboundedVecGrowthCheck),
    UncheckedDivisor(UncheckedDivisorCheck),
    UnprotectedUpgrade(UnprotectedUpgradeCheck),
}

/// The names of the built-in checks, in registry order.
pub open spec fn default_check_names() -> Seq<Seq<char>> {
    seq![
        "unprotected-admin"@,
        "missing-contract-annotation"@,
        "self-transfer"@,
        "mutable-global-state"@,
        "re-initialization-risk"@,
        "missing-balance-check"@,
        "unbounded-vec-growth"@,
        "unchecked-divisor"@,
        "unprotected-upgrade"@,
    ]
}

impl Check for BuiltinCheck {
    open spec fn name_spec(&self) -> Seq<char> {
        match self {
            BuiltinCheck::UnprotectedAdmin(c) => c.name_spec(),
            BuiltinCheck::MissingContractAnnotation(c) => c.name_spec(),
            BuiltinCheck::SelfTransfer(c) => c.name_spec(),
            BuiltinCheck::MutableGlobalState(c) => c.name_spec(),
            BuiltinCheck::ReInitializationRisk(c) => c.name_spec(),
            BuiltinCheck::MissingBalance(c) => c.name_spec(),
            BuiltinCheck::UnboundedVecGrowth(c) => c.name_spec(),
            BuiltinCheck::UncheckedDivisor(c) => c.name_spec(),
            BuiltinCheck::UnprotectedUpgrade(c) => c.name_spec(),
        }
    }

    open spec fn findings_spec(&self, file: &SourceFile) -> Seq<FindingView> {
        match self {
            BuiltinCheck::UnprotectedAdmin(c) => c.findings_spec(file),
            BuiltinCheck::MissingContractAnnotation(c) => c.findings_spec(file),
            BuiltinCheck::SelfTransfer(c) => c.findings_spec(file),
            BuiltinCheck::MutableGlobalState(c) => c.findings_spec(file),
            BuiltinCheck::ReInitializationRisk(c) => c.findings_spec(file),
            BuiltinCheck::MissingBalance(c) => c.findings_spec(file),
            BuiltinCheck::UnboundedVecGrowth(c) => c.findings_spec(file),
            BuiltinCheck::UncheckedDivisor(c) => c.findings_spec(file),
            BuiltinCheck::UnprotectedUpgrade(c) => c.findings_spec(file),
        }
    }

    fn name(&self) -> (r: &str) {
        match self {
            BuiltinCheck::UnprotectedAdmin(c) => c.name(),
            BuiltinCheck::MissingContractAnnotation(c) => c.name(),
            BuiltinCheck::SelfTransfer(c) => c.name(),
            BuiltinCheck::MutableGlobalState(c) => c.name(),
            BuiltinCheck::ReInitializationRisk(c) => c.name(),
            BuiltinCheck::MissingBalance(c) => c.name(),
            BuiltinCheck::UnboundedVecGrowth(c) => c.name(),
            BuiltinCheck::UncheckedDivisor(c) => c.name(),
            BuiltinCheck::UnprotectedUpgrade(c) => c.name(),
        }
    }

    fn run(&self, file: &SourceFile, source: &str) -> (r: Vec<Finding>) {
        match self {
            BuiltinCheck::UnprotectedAdmin(c) => c.run(file, source),
            BuiltinCheck::MissingContractAnnotation(c) => c.run(file, source),
            BuiltinCheck::SelfTransfer(c) => c.run(file, source),
            BuiltinCheck::MutableGlobalState(c) => c.run(file, source),
            BuiltinCheck::ReInitializationRisk(c) => c.run(file, source),
            BuiltinCheck::MissingBalance(c) => c.run(file, source),
            BuiltinCheck::UnboundedVecGrowth(c) => c.run(file, source),
            BuiltinCheck::UncheckedDivisor(c) => c.run(file, source),
            BuiltinCheck::UnprotectedUpgrade(c) => c.run(file, source),
        }
    }
}

/// The check's registry entry: its name and, for the admin check, its extra names.
pub open spec fn check_names(cs: Seq<BuiltinCheck>) -> Seq<Seq<char>> {
    cs.map_values(|c: BuiltinCheck| c.name_spec())
}

/// The built-in check at registry position `i`, with `extra` added to the admin check's
/// sensitive names.
fn builtin_at(i: usize, extra: &Vec<String>) -> (r: BuiltinCheck)
    requires
        i < 9,
    ensures
        r.name_spec() == default_check_names()[i as int],
        r matches BuiltinCheck::UnprotectedAdmin(a) ==> views(a.extra_names@) == views(extra@),
{
    match i {
        0 => {
            let mut names: Vec<String> = Vec::new();
            let mut k: usize = 0;
            while k < extra.len()
                invariant
                    0 <= k <= extra.len(),
                    views(names@) == views(extra@.take(k as int)),
                decreases extra.len() - k,
            {
                let ghost prev = names@;
                let c = extra[k].clone();
                names.push(c);
                assert(extra@.take(k + 1) =~= extra@.take(k as int).push(extra@[k as int]));
                assert(views(names@) =~= views(prev).push(extra@[k as int]@));
                assert(views(extra@.take(k + 1)) =~= views(extra@.take(k as int)).push(extra@[k as int]@));
                k += 1;
            }
            assert(extra@.take(k as int) =~= extra@);
            BuiltinCheck::UnprotectedAdmin(UnprotectedAdminCheck::with_extra_names(names))
        },
        1 => BuiltinCheck::MissingContractAnnotation(MissingContractAnnotationCheck),
        2 => BuiltinCheck::SelfTransfer(SelfTransferCheck),
        3 => BuiltinCheck::MutableGlobalState(MutableGlobalStateCheck),
        4 => BuiltinCheck::ReInitializationRisk(ReInitializationRiskCheck),
        5 => BuiltinCheck::MissingBalance(MissingBalanceCheck),
        6 => BuiltinCheck::UnboundedVecGrowth(UnboundedVecGrowthCheck),
        7 => BuiltinCheck::UncheckedDivisor(UncheckedDivisorCheck),
        _ => BuiltinCheck::UnprotectedUpgrade(UnprotectedUpgradeCheck),
    }
}

/// Every built-in check, in registry order, with the built-in admin names only.
pub fn default_checks() -> (r: Vec<BuiltinCheck>)
    ensures
        check_names(r@) == default_check_names(),
        forall|i: int| 0 <= i < r@.len() ==> (#[trigger] r@[i] matches BuiltinCheck::UnprotectedAdmin(a) ==> a.extra_names@.len() == 0),
{
    let none: Vec<String> = Vec::new();
    let r = default_checks_with_config(&none, &none);
    proof {
        assert(views(none@) =~= Seq::<Seq<char>>::empty());
        lemma_enabled_none(9);
        assert(default_check_names().take(9) =~= default_check_names());
        assert forall|i: int| 0 <= i < r@.len() implies (#[trigger] r@[i] matches BuiltinCheck::UnprotectedAdmin(a) ==> a.extra_names@.len() == 0) by {
            if let BuiltinCheck::UnprotectedAdmin(a) = r@[i] {
                assert(views(a.extra_names@).len() == a.extra_names@.len());
            }
        }
    }
    r
}

proof fn lemma_enabled_none(k: int)
    requires
        0 <= k <= 9,
    ensures
        enabled_names(Seq::empty(), k) == default_check_names().take(k),
    decreases k,
{
    if k > 0 {
        lemma_enabled_none(k - 1);
        assert(default_check_names().take(k) =~= default_check_names().take(k - 1).push(default_check_names()[k - 1]));
    } else {
        assert(default_check_names().take(0) =~= Seq::<Seq<char>>::empty());
    }
}

/// The names of the built-in checks that `disabled` does not name, in registry order.
pub open spec fn enabled_names(disabled: Seq<Seq<char>>, k: int) -> Seq<Seq<char>>
    decreases k,
{
    if k <= 0 || k > 9 {
        Seq::empty()
    } else {
        enabled_names(disabled, k - 1) + if disabled.contains(default_check_names()[k - 1]) {
            Seq::empty()
        } else {
            seq![default_check_names()[k - 1]]
        }
    }
}

/// The built-in checks minus those named in `disabled`, in registry order; the admin check
/// also treats `extra_sensitive` as sensitive names.
pub fn default_checks_with_config(disabled: &Vec<String>, extra_sensitive: &Vec<String>) -> (r: Vec<BuiltinCheck>)
    ensures
        check_names(r@) == enabled_names(views(disabled@), 9),
        forall|i: int| 0 <= i < r@.len() ==> (#[trigger] r@[i] matches BuiltinCheck::UnprotectedAdmin(a) ==> views(a.extra_names@) == views(extra_sensitive@)),
{
    let mut out: Vec<BuiltinCheck> = Vec::new();
    let mut i: usize = 0;
    while i < 9
        invariant
            0 <= i <= 9,
            check_names(out@) == enabled_names(views(disabled@), i as int),
            forall|j: int| 0 <= j < out@.len() ==> (#[trigger] out@[j] matches BuiltinCheck::UnprotectedAdmin(a) ==> views(a.extra_names@) == views(extra_sensitive@)),
        decreases 9 - i,
    {
        let c = builtin_at(i, extra_sensitive);
        let ghost prev = out@;
        if !vec_contains_str(disabled, c.name()) {
            out.push(c);
            assert(check_names(out@) =~= check_names(prev).push(c.name_spec()));
        }
        i += 1;
    }
    out
}

}
