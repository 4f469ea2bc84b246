//! The scan command's decisions: which output format, the failure threshold, which checks
//! are disabled, whether a disabled name is unknown, and whether the scan fails.
use vstd::prelude::*;
use crate::checks::{check_names, BuiltinCheck};
use crate::finding::{findings_view, severity_at_least, severity_rank, Check, Finding, FindingView, Severity};
use crate::text::{lowercase, str_eq, to_lowercase};
use crate::util::{vec_contains_str, views};

verus! {

/// More than one of `--json`, `--sarif` and `--markdown` is given.
pub open spec fn formats_conflict_spec(json: bool, sarif: bool, markdown: bool) -> bool {
    (if json { 1int } else { 0 }) + (if sarif { 1int } else { 0 }) + (if markdown { 1int } else { 0 }) > 1
}

/// Whether the output format flags exclude each other.
pub fn formats_conflict(json: bool, sarif: bool, markdown: bool) -> (r: bool)
    ensures
        r == formats_conflict_spec(json, sarif, markdown),
{
    let mut n: u8 = 0;
    if json {
        n += 1;
    }
    if sarif {
        n += 1;
    }
    if markdown {
        n += 1;
    }
    n > 1
}

/// The `--fail-on` value in effect: the command line's unless it is the default `high`,
/// in which case the configuration's minimum severity, when one is set.
pub open spec fn effective_fail_on_spec(cli: Seq<char>, config_min: Option<Seq<char>>) -> Seq<char> {
    if cli != "high"@ {
        cli
    } else {
        match config_min {
            Some(m) => m,
            None => cli,
        }
    }
}

/// The failure threshold's name in effect.
pub fn effective_fail_on(cli: &str, config_min: &Option<String>) -> (r: String)
    ensures
        r@ == effective_fail_on_spec(cli@, crate::finding::opt_text(*config_min)),
{
    if !str_eq(cli, "high") {
        String::from_str(cli)
    } else {
        match config_min {
            Some(m) => m.clone(),
            None => String::from_str(cli),
        }
    }
}

/// The severity named by a lowercased threshold: `medium`, `low`, anything else `High`.
pub open spec fn threshold_of(lowered: Seq<char>) -> Severity {
    if lowered == "medium"@ {
        Severity::Medium
    } else if lowered == "low"@ {
        Severity::Low
    } else {
        Severity::High
    }
}

/// The failure threshold named by `fail_on`, compared case-insensitively.
pub fn fail_threshold(fail_on: &str) -> (r: Severity)
    ensures
        r == threshold_of(lowercase(fail_on@)),
{
    let lowered = to_lowercase(fail_on);
    if str_eq(lowered.as_str(), "medium") {
        Severity::Medium
    } else if str_eq(lowered.as_str(), "low") {
        Severity::Low
    } else {
        Severity::High
    }
}

/// Some finding is at least as serious as the threshold.
pub open spec fn should_fail_spec(s: Seq<FindingView>, threshold: Severity) -> bool {
    exists|i: int| 0 <= i < s.len() && severity_rank(#[trigger] s[i].severity) <= severity_rank(threshold)
}

/// Whether the scan fails: some finding is at least as serious as the threshold.
pub fn should_fail(findings: &[Finding], threshold: Severity) -> (r: bool)
    ensures
        r == should_fail_spec(findings_view(findings@), threshold),
{
    let ghost fv = findings_view(findings@);
    let mut i: usize = 0;
    while i < findings.len()
        invariant
            0 <= i <= findings.len(),
            fv == findings_view(findings@),
            forall|j: int| 0 <= j < i ==> severity_rank(#[trigger] fv[j].severity) > severity_rank(threshold),
        decreases findings.len() - i,
    {
        assert(fv[i as int] == findings@[i as int]@);
        if severity_at_least(findings[i].severity, threshold) {
            assert(severity_rank(fv[i as int].severity) <= severity_rank(threshold));
            return true;
        }
        i += 1;
    }
    false
}

/// A stricter threshold fails no scan that a more lenient one passes: if the findings
/// fail at threshold `t1` they fail at every threshold `t2` that is no more serious.
pub proof fn lemma_should_fail_monotone(s: Seq<FindingView>, t1: Severity, t2: Severity)
    requires
        severity_rank(t1) <= severity_rank(t2),
        should_fail_spec(s, t1),
    ensures
        should_fail_spec(s, t2),
{
    let i = choose|i: int| 0 <= i < s.len() && severity_rank(#[trigger] s[i].severity) <= severity_rank(t1);
    assert(severity_rank(s[i].severity) <= severity_rank(t2));
}

/// Whether the results are printed: unless `--quiet`, and always when a finding meets the
/// `--fail-on` threshold.
pub fn should_print_results(quiet: bool, failing: bool) -> (r: bool)
    ensures
        r == (!quiet || failing),
{
    !quiet || failing
}

/// The configuration's disabled checks followed by each command-line name that is not
/// already listed.
pub open spec fn merged_disabled_spec(config: Seq<Seq<char>>, cli: Seq<Seq<char>>) -> Seq<Seq<char>>
    decreases cli.len(),
{
    if cli.len() == 0 {
        config
    } else {
        let m = merged_disabled_spec(config, cli.drop_last());
        if m.contains(cli.last()) {
            m
        } else {
            m.push(cli.last())
        }
    }
}

/// The disabled checks from the configuration and the command line.
pub fn merge_disabled(config: &Vec<String>, cli: &Vec<String>) -> (r: Vec<String>)
    ensures
        views(r@) == merged_disabled_spec(views(config@), views(cli@)),
{
    let ghost cv = views(cli@);
    let mut all: Vec<String> = Vec::new();
    let mut i: usize = 0;
    while i < config.len()
        invariant
            0 <= i <= config.len(),
            views(all@) == views(config@).take(i as int),
        decreases config.len() - i,
    {
        let ghost prev = all@;
        all.push(config[i].clone());
        assert(views(all@) =~= views(prev).push(config@[i as int]@));
        assert(views(config@).take(i + 1) =~= views(config@).take(i as int).push(views(config@)[i as int]));
        i += 1;
    }
    assert(views(config@).take(i as int) =~= views(config@));
    let mut j: usize = 0;
    while j < cli.len()
        invariant
            0 <= j <= cli.len(),
            cv == views(cli@),
            views(all@) == merged_disabled_spec(views(config@), cv.take(j as int)),
        decreases cli.len() - j,
    {
        assert(cv.take(j + 1).drop_last() =~= cv.take(j as int));
        assert(cv.take(j + 1).last() == cli@[j as int]@);
        if !vec_contains_str(&all, cli[j].as_str()) {
            let ghost prev = all@;
            all.push(cli[j].clone());
            assert(views(all@) =~= views(prev).push(cli@[j as int]@));
        }
        j += 1;
    }
    assert(cv.take(j as int) =~= cv);
    all
}

/// The merged list keeps the configuration's list in front and holds a name exactly when
/// the configuration or the command line names it.
pub proof fn lemma_merged_disabled(config: Seq<Seq<char>>, cli: Seq<Seq<char>>)
    ensures
        merged_disabled_spec(config, cli).take(config.len() as int) == config,
        merged_disabled_spec(config, cli).len() >= config.len(),
        forall|n: Seq<char>| #[trigger] merged_disabled_spec(config, cli).contains(n) <==> (config.contains(n)
            || cli.contains(n)),
    decreases cli.len(),
{
    if cli.len() > 0 {
        let p = cli.drop_last();
        lemma_merged_disabled(config, p);
        let m = merged_disabled_spec(config, p);
        let x = cli.last();
        assert(p.push(x) =~= cli);
        if !m.contains(x) {
            assert(m.push(x).take(config.len() as int) =~= m.take(config.len() as int));
        }
        assert forall|n: Seq<char>| #[trigger] merged_disabled_spec(config, cli).contains(n) <==> (config.contains(n)
            || cli.contains(n)) by {
            assert(cli[cli.len() - 1] == x);
            if cli.contains(n) && n != x {
                let w = choose|w: int| 0 <= w < cli.len() && cli[w] == n;
                assert(p[w] == n);
            }
            if p.contains(n) {
                let w = choose|w: int| 0 <= w < p.len() && p[w] == n;
                assert(cli[w] == n);
            }
            if !m.contains(x) {
                let e = m.push(x);
                assert(e[m.len() as int] == x);
                if e.contains(n) && n != x {
                    let w = choose|w: int| 0 <= w < e.len() && e[w] == n;
                    assert(m[w] == n);
                }
                if m.contains(n) {
                    let w = choose|w: int| 0 <= w < m.len() && m[w] == n;
                    assert(e[w] == n);
                }
            }
        }
    }
}

/// The first disabled name (in order) that names no known check.
pub open spec fn first_unknown_spec(disabled: Seq<Seq<char>>, known: Seq<Seq<char>>, k: int) -> Option<Seq<char>>
    decreases k,
{
    if k <= 0 || k > disabled.len() {
        None
    } else {
        match first_unknown_spec(disabled, known, k - 1) {
            Some(n) => Some(n),
            None => if known.contains(disabled[k - 1]) {
                None
            } else {
                Some(disabled[k - 1])
            },
        }
    }
}

proof fn lemma_first_unknown_stable(d: Seq<Seq<char>>, known: Seq<Seq<char>>, a: int, b: int)
    requires
        0 <= a <= b <= d.len(),
        first_unknown_spec(d, known, a) is Some,
    ensures
        first_unknown_spec(d, known, b) == first_unknown_spec(d, known, a),
    decreases b - a,
{
    if a < b {
        lemma_first_unknown_stable(d, known, a, b - 1);
    }
}

/// The first disabled name that is not the name of one of `checks`, if any.
pub fn first_unknown_check(disabled: &Vec<String>, checks: &Vec<BuiltinCheck>) -> (r: Option<String>)
    ensures
        crate::finding::opt_text(r) == first_unknown_spec(views(disabled@), check_names(checks@), disabled@.len() as int),
{
    let ghost dv = views(disabled@);
    let ghost kn = check_names(checks@);
    let mut i: usize = 0;
    while i < disabled.len()
        invariant
            0 <= i <= disabled.len(),
            dv == views(disabled@),
            kn == check_names(checks@),
            first_unknown_spec(dv, kn, i as int) is None,
        decreases disabled.len() - i,
    {
        let mut found = false;
        let mut k: usize = 0;
        while k < checks.len()
            invariant
                0 <= k <= checks.len(),
                i < disabled@.len(),
                kn == check_names(checks@),
                found == (exists|j: int| 0 <= j < k && kn[j] == disabled@[i as int]@),
            decreases checks.len() - k,
        {
            let n = checks[k].name();
            assert(kn[k as int] == checks@[k as int].name_spec());
            if str_eq(n, disabled[i].as_str()) {
                found = true;
            }
            k += 1;
        }
        assert(dv[i as int] == disabled@[i as int]@);
        assert(found == kn.contains(dv[i as int]));
        if !found {
            assert(first_unknown_spec(dv, kn, i + 1) == Some(dv[i as int]));
            proof {
                lemma_first_unknown_stable(dv, kn, i + 1, dv.len() as int);
            }
            return Some(disabled[i].clone());
        }
        i += 1;
    }
    None
}

/// The message for a disabled name that names no check.
pub open spec fn unknown_check_message_spec(name: Seq<char>) -> Seq<char> {
    "unknown check `"@ + name + "`. Run `soroban-guard list-checks` to see available checks."@
}

/// The error text for an unknown check name.
pub fn unknown_check_message(name: &str) -> (r: String)
    ensures
        r@ == unknown_check_message_spec(name@),
{
    let mut s = String::from_str("unknown check `");
    s.append(name);
    s.append("`. Run `soroban-guard list-checks` to see available checks.");
    s
}

/// The names joined with `sep` between neighbours.
pub open spec fn joined(names: Seq<Seq<char>>, sep: Seq<char>) -> Seq<char>
    decreases names.len(),
{
    if names.len() == 0 {
        Seq::empty()
    } else if names.len() == 1 {
        names[0]
    } else {
        joined(names.drop_last(), sep) + sep + names.last()
    }
}

/// The names joined with `sep` (std's `join` on a slice of strings).
pub fn join_names(names: &Vec<String>, sep: &str) -> (r: String)
    ensures
        r@ == joined(views(names@), sep@),
{
    let ghost nv = views(names@);
    let mut out = String::new();
    let mut i: usize = 0;
    while i < names.len()
        invariant
            0 <= i <= names.len(),
            nv == views(names@),
            out@ == joined(nv.take(i as int), sep@),
        decreases names.len() - i,
    {
        assert(nv.take(i + 1).drop_last() =~= nv.take(i as int));
        assert(nv.take(i + 1).last() == names@[i as int]@);
        if i > 0 {
            out.append(sep);
        } else {
            assert(nv.take(1)[0] == names@[0]@);
        }
        out.append(names[i].as_str());
        i += 1;
    }
    assert(nv.take(i as int) =~= nv);
    out
}


/// What a file-system event in watch mode did.
#[derive(Clone, Copy, Debug, PartialEq, Eq, Structural)]
pub enum ChangeKind {
    Create,
    Modify,
    Other,
}

/// An event triggers a re-scan when it creates or modifies a path with extension `rs`.
pub open spec fn relevant_change_spec(kind: ChangeKind, extensions: Seq<Option<Seq<char>>>) -> bool {
    (kind == ChangeKind::Create || kind == ChangeKind::Modify) && exists|i: int|
        0 <= i < extensions.len() && #[trigger] extensions[i] == Some("rs"@)
}

pub open spec fn opt_views(v: Seq<Option<String>>) -> Seq<Option<Seq<char>>> {
    v.map_values(|o: Option<String>| crate::finding::opt_text(o))
}

/// Whether a watch event (its kind and the extensions of its paths) calls for a re-scan.
pub fn is_relevant_change(kind: ChangeKind, extensions: &Vec<Option<String>>) -> (r: bool)
    ensures
        r == relevant_change_spec(kind, opt_views(extensions@)),
{
    let ghost ev = opt_views(extensions@);
    if kind != ChangeKind::Create && kind != ChangeKind::Modify {
        return false;
    }
    let mut i: usize = 0;
    while i < extensions.len()
        invariant
            0 <= i <= extensions.len(),
            ev == opt_views(extensions@),
            kind == ChangeKind::Create || kind == ChangeKind::Modify,
            forall|j: int| 0 <= j < i ==> #[trigger] ev[j] != Some("rs"@),
        decreases extensions.len() - i,
    {
        assert(ev[i as int] == crate::finding::opt_text(extensions@[i as int]));
        match &extensions[i] {
            Some(e) => {
                if str_eq(e.as_str(), "rs") {
                    assert(ev[i as int] == Some("rs"@));
                    return true;
                }
            },
            None => {},
        }
        i += 1;
    }
    false
}

} // verus!
