//! What the scan promises of the findings it reports: ordered, free of repeats, nothing
//! lost or invented by the ordering, and suppressed findings absent.
use vstd::prelude::*;
use crate::analyzer::{
    dedup_key, dedup_keys, dedup_spec, insert_finding, key_le, leading_le, sort_findings_spec, text_le,
    file_findings_spec, relabel, unsuppressed, with_file_path, all_check_findings, concat_findings,
};
use crate::finding::{Check, FindingView};
use crate::suppress::{fn_spans_spec, suppressed_spec, suppressions_spec, FnSpanView};
use crate::syntax::SourceFile;
use crate::text::lines_spec;

verus! {

/// Every finding sorts no later than each finding after it.
pub open spec fn sorted_by(s: Seq<FindingView>, by_file: bool) -> bool {
    forall|i: int, j: int| 0 <= i < j < s.len() ==> key_le(#[trigger] s[i], #[trigger] s[j], by_file)
}

/// No two findings share a key.
pub open spec fn distinct_keys(s: Seq<FindingView>) -> bool {
    forall|i: int, j: int| 0 <= i < j < s.len() ==> dedup_key(#[trigger] s[i]) != dedup_key(#[trigger] s[j])
}

/// Text order is total: of two texts, one sorts no later than the other.
pub proof fn lemma_text_le_total(a: Seq<char>, b: Seq<char>)
    ensures
        text_le(a, b) || text_le(b, a),
    decreases a.len(),
{
    if a.len() > 0 && b.len() > 0 && a[0] == b[0] {
        lemma_text_le_total(a.drop_first(), b.drop_first());
    }
}

/// Texts that sort no later than each other are equal.
pub proof fn lemma_text_le_antisymmetric(a: Seq<char>, b: Seq<char>)
    requires
        text_le(a, b),
        text_le(b, a),
    ensures
        a == b,
    decreases a.len(),
{
    if a.len() > 0 && b.len() > 0 {
        lemma_text_le_antisymmetric(a.drop_first(), b.drop_first());
        assert(a =~= seq![a[0]] + a.drop_first());
        assert(b =~= seq![b[0]] + b.drop_first());
    }
}

/// Text order is transitive.
pub proof fn lemma_text_le_transitive(a: Seq<char>, b: Seq<char>, c: Seq<char>)
    requires
        text_le(a, b),
        text_le(b, c),
    ensures
        text_le(a, c),
    decreases a.len(),
{
    if a.len() > 0 && b.len() > 0 && c.len() > 0 && a[0] == b[0] && b[0] == c[0] {
        lemma_text_le_transitive(a.drop_first(), b.drop_first(), c.drop_first());
    }
}

/// The finding order is total.
pub proof fn lemma_key_le_total(a: FindingView, b: FindingView, by_file: bool)
    ensures
        key_le(a, b, by_file) || key_le(b, a, by_file),
{
    lemma_text_le_total(a.file_path, b.file_path);
}

/// The finding order is transitive.
pub proof fn lemma_key_le_transitive(a: FindingView, b: FindingView, c: FindingView, by_file: bool)
    requires
        key_le(a, b, by_file),
        key_le(b, c, by_file),
    ensures
        key_le(a, c, by_file),
{
    if by_file {
        if a.file_path != b.file_path && b.file_path != c.file_path {
            lemma_text_le_transitive(a.file_path, b.file_path, c.file_path);
            if a.file_path == c.file_path {
                lemma_text_le_antisymmetric(a.file_path, b.file_path);
            }
        }
    }
}

proof fn lemma_leading_bound(t: Seq<FindingView>, x: FindingView, by_file: bool)
    ensures
        leading_le(t, x, by_file) <= t.len(),
        forall|j: int| 0 <= j < leading_le(t, x, by_file) ==> key_le(#[trigger] t[j], x, by_file),
        leading_le(t, x, by_file) < t.len() ==> !key_le(t[leading_le(t, x, by_file) as int], x, by_file),
    decreases t.len(),
{
    if t.len() > 0 && key_le(t[0], x, by_file) {
        lemma_leading_bound(t.drop_first(), x, by_file);
        assert forall|j: int| 0 <= j < leading_le(t, x, by_file) implies key_le(#[trigger] t[j], x, by_file) by {
            if j > 0 {
                assert(t[j] == t.drop_first()[j - 1]);
            }
        }
    }
}

proof fn lemma_insert_sorted(t: Seq<FindingView>, x: FindingView, by_file: bool)
    requires
        sorted_by(t, by_file),
    ensures
        sorted_by(insert_finding(t, x, by_file), by_file),
{
    lemma_leading_bound(t, x, by_file);
    let k = leading_le(t, x, by_file) as int;
    let u = insert_finding(t, x, by_file);
    t.insert_ensures(k, x);
    if k < t.len() {
        lemma_key_le_total(t[k], x, by_file);
    }
    assert forall|i: int, j: int| 0 <= i < j < u.len() implies key_le(#[trigger] u[i], #[trigger] u[j], by_file) by {
        if j < k {
            assert(u[i] == t[i] && u[j] == t[j]);
        } else if j == k {
            assert(u[i] == t[i]);
        } else if i < k {
            assert(u[i] == t[i] && u[j] == t[j - 1]);
            if i < j - 1 {
                assert(key_le(t[i], t[j - 1], by_file));
            }
        } else if i == k {
            assert(u[j] == t[j - 1]);
            if j - 1 > k {
                assert(key_le(t[k], t[j - 1], by_file));
                lemma_key_le_transitive(x, t[k], t[j - 1], by_file);
            }
        } else {
            assert(u[i] == t[i - 1] && u[j] == t[j - 1]);
        }
    }
}

/// Sorting orders the findings: each sorts no later than every one after it.
pub proof fn lemma_sort_sorted(s: Seq<FindingView>, by_file: bool)
    ensures
        sorted_by(sort_findings_spec(s, by_file), by_file),
    decreases s.len(),
{
    if s.len() > 0 {
        lemma_sort_sorted(s.drop_last(), by_file);
        lemma_insert_sorted(sort_findings_spec(s.drop_last(), by_file), s.last(), by_file);
    }
}

/// Sorting neither loses nor adds a finding: the result is a permutation of the input.
pub proof fn lemma_sort_permutation(s: Seq<FindingView>, by_file: bool)
    ensures
        sort_findings_spec(s, by_file).to_multiset() == s.to_multiset(),
    decreases s.len(),
{
    if s.len() > 0 {
        let t = sort_findings_spec(s.drop_last(), by_file);
        let x = s.last();
        lemma_sort_permutation(s.drop_last(), by_file);
        lemma_leading_bound(t, x, by_file);
        let k = leading_le(t, x, by_file) as int;
        let u = t.insert(k, x);
        t.insert_ensures(k, x);
        assert(u.remove(k) =~= t);
        u.to_multiset_ensures();
        assert(u[k] == x);
        assert(u.contains(x));
        assert(u.to_multiset().count(x) > 0);
        assert(u.to_multiset() =~= t.to_multiset().insert(x));
        s.drop_last().to_multiset_ensures();
        assert(s.drop_last().push(x) =~= s);
    }
}

/// Sorting keeps findings that compare equal in their input order (it is stable):
/// `sort` of an already sorted sequence is that sequence.
pub proof fn lemma_sort_of_sorted(s: Seq<FindingView>, by_file: bool)
    requires
        sorted_by(s, by_file),
    ensures
        sort_findings_spec(s, by_file) == s,
    decreases s.len(),
{
    if s.len() > 0 {
        let p = s.drop_last();
        assert(sorted_by(p, by_file)) by {
            assert forall|i: int, j: int| 0 <= i < j < p.len() implies key_le(#[trigger] p[i], #[trigger] p[j], by_file) by {
                assert(p[i] == s[i] && p[j] == s[j]);
            }
        }
        lemma_sort_of_sorted(p, by_file);
        lemma_leading_all(p, s.last(), by_file);
        assert(p.insert(p.len() as int, s.last()) =~= s);
    }
}

proof fn lemma_leading_all(t: Seq<FindingView>, x: FindingView, by_file: bool)
    requires
        forall|j: int| 0 <= j < t.len() ==> key_le(#[trigger] t[j], x, by_file),
    ensures
        leading_le(t, x, by_file) == t.len(),
    decreases t.len(),
{
    if t.len() > 0 {
        assert(key_le(t[0], x, by_file));
        assert forall|j: int| 0 <= j < t.drop_first().len() implies key_le(#[trigger] t.drop_first()[j], x, by_file) by {
            assert(t.drop_first()[j] == t[j + 1]);
        }
        lemma_leading_all(t.drop_first(), x, by_file);
    }
}

/// Every finding that survives de-duplication comes from the input.
pub proof fn lemma_dedup_subset(s: Seq<FindingView>)
    ensures
        forall|i: int| 0 <= i < dedup_spec(s).len() ==> s.contains(#[trigger] dedup_spec(s)[i]),
        dedup_spec(s).len() <= s.len(),
    decreases s.len(),
{
    if s.len() > 0 {
        let p = s.drop_last();
        lemma_dedup_subset(p);
        let d = dedup_spec(p);
        assert forall|i: int| 0 <= i < dedup_spec(s).len() implies s.contains(#[trigger] dedup_spec(s)[i]) by {
            if i < d.len() {
                assert(dedup_spec(s)[i] == d[i]);
                let w = choose|w: int| 0 <= w < p.len() && p[w] == d[i];
                assert(s[w] == p[w]);
            } else {
                assert(dedup_spec(s)[i] == s.last());
                assert(s[s.len() - 1] == s.last());
            }
        }
    }
}

/// De-duplication leaves no two findings with the same key.
pub proof fn lemma_dedup_distinct(s: Seq<FindingView>)
    ensures
        distinct_keys(dedup_spec(s)),
    decreases s.len(),
{
    if s.len() > 0 {
        let p = s.drop_last();
        lemma_dedup_distinct(p);
        let d = dedup_spec(p);
        if !dedup_keys(d).contains(dedup_key(s.last())) {
            let e = d.push(s.last());
            assert forall|i: int, j: int| 0 <= i < j < e.len() implies dedup_key(#[trigger] e[i]) != dedup_key(#[trigger] e[j]) by {
                if j == d.len() {
                    assert(dedup_keys(d)[i] == dedup_key(d[i]));
                } else {
                    assert(e[i] == d[i] && e[j] == d[j]);
                }
            }
        }
    }
}

/// De-duplication keeps every key: a key occurs in the result exactly when it occurs in
/// the input.
pub proof fn lemma_dedup_keeps_keys(s: Seq<FindingView>)
    ensures
        forall|k: (Seq<char>, usize, Seq<char>, Seq<char>, Seq<char>, crate::finding::Severity)|
            #[trigger] dedup_keys(dedup_spec(s)).contains(k) <==> dedup_keys(s).contains(k),
    decreases s.len(),
{
    if s.len() > 0 {
        let p = s.drop_last();
        lemma_dedup_keeps_keys(p);
        let d = dedup_spec(p);
        let ks = dedup_keys(s);
        let kp = dedup_keys(p);
        assert(ks =~= kp.push(dedup_key(s.last())));
        if !dedup_keys(d).contains(dedup_key(s.last())) {
            assert(dedup_keys(d.push(s.last())) =~= dedup_keys(d).push(dedup_key(s.last())));
        }
        assert forall|k: (Seq<char>, usize, Seq<char>, Seq<char>, Seq<char>, crate::finding::Severity)|
            #[trigger] dedup_keys(dedup_spec(s)).contains(k) <==> ks.contains(k) by {
            let kd = dedup_keys(d);
            if ks.contains(k) {
                let w = choose|w: int| 0 <= w < ks.len() && ks[w] == k;
                if w < kp.len() {
                    assert(kp[w] == k);
                }
            }
            if kp.contains(k) {
                let w = choose|w: int| 0 <= w < kp.len() && kp[w] == k;
                assert(ks[w] == k);
            }
            assert(ks[ks.len() - 1] == dedup_key(s.last()));
            if !kd.contains(dedup_key(s.last())) {
                let e = kd.push(dedup_key(s.last()));
                assert(e[kd.len() as int] == dedup_key(s.last()));
                if e.contains(k) {
                    let w = choose|w: int| 0 <= w < e.len() && e[w] == k;
                    if w < kd.len() {
                        assert(kd[w] == k);
                    }
                }
                if kd.contains(k) {
                    let w = choose|w: int| 0 <= w < kd.len() && kd[w] == k;
                    assert(e[w] == k);
                }
            }
        }
    }
}

/// De-duplicating findings that already have distinct keys changes nothing; in particular
/// de-duplicating twice is the same as once.
pub proof fn lemma_dedup_of_distinct(s: Seq<FindingView>)
    requires
        distinct_keys(s),
    ensures
        dedup_spec(s) == s,
    decreases s.len(),
{
    if s.len() > 0 {
        let p = s.drop_last();
        assert(distinct_keys(p)) by {
            assert forall|i: int, j: int| 0 <= i < j < p.len() implies dedup_key(#[trigger] p[i]) != dedup_key(#[trigger] p[j]) by {
                assert(p[i] == s[i] && p[j] == s[j]);
            }
        }
        lemma_dedup_of_distinct(p);
        if dedup_keys(p).contains(dedup_key(s.last())) {
            let w = choose|w: int| 0 <= w < dedup_keys(p).len() && dedup_keys(p)[w] == dedup_key(s.last());
            assert(dedup_keys(p)[w] == dedup_key(p[w]));
            assert(p[w] == s[w]);
            assert(dedup_key(s[w]) != dedup_key(s[s.len() - 1]));
        }
        assert(p.push(s.last()) =~= s);
    }
}

/// De-duplication is idempotent.
pub proof fn lemma_dedup_idempotent(s: Seq<FindingView>)
    ensures
        dedup_spec(dedup_spec(s)) == dedup_spec(s),
{
    lemma_dedup_distinct(s);
    lemma_dedup_of_distinct(dedup_spec(s));
}

/// De-duplicating an ordered sequence keeps it ordered.
pub proof fn lemma_dedup_sorted(s: Seq<FindingView>, by_file: bool)
    requires
        sorted_by(s, by_file),
    ensures
        sorted_by(dedup_spec(s), by_file),
    decreases s.len(),
{
    if s.len() > 0 {
        let p = s.drop_last();
        assert(sorted_by(p, by_file)) by {
            assert forall|i: int, j: int| 0 <= i < j < p.len() implies key_le(#[trigger] p[i], #[trigger] p[j], by_file) by {
                assert(p[i] == s[i] && p[j] == s[j]);
            }
        }
        lemma_dedup_sorted(p, by_file);
        lemma_dedup_subset(p);
        let d = dedup_spec(p);
        if !dedup_keys(d).contains(dedup_key(s.last())) {
            let e = d.push(s.last());
            assert forall|i: int, j: int| 0 <= i < j < e.len() implies key_le(#[trigger] e[i], #[trigger] e[j], by_file) by {
                if j == d.len() {
                    assert(p.contains(d[i]));
                    let w = choose|w: int| 0 <= w < p.len() && p[w] == d[i];
                    assert(s[w] == p[w]);
                    assert(key_le(s[w], s[s.len() - 1], by_file));
                } else {
                    assert(e[i] == d[i] && e[j] == d[j]);
                }
            }
        }
    }
}

/// Which findings of `s` survive the suppression filter: exactly those no suppression
/// covers, in their order.
pub proof fn lemma_unsuppressed_members(
    s: Seq<FindingView>,
    lc: Seq<(usize, Seq<char>)>,
    fc: Seq<(Seq<char>, Seq<char>, Seq<char>)>,
    spans: Seq<FnSpanView>,
)
    ensures
        forall|f: FindingView| #[trigger] unsuppressed(s, lc, fc, spans).contains(f) <==> (s.contains(f)
            && !suppressed_spec(f, lc, fc, spans)),
    decreases s.len(),
{
    if s.len() > 0 {
        let p = s.drop_last();
        lemma_unsuppressed_members(p, lc, fc, spans);
        assert(p.push(s.last()) =~= s);
        assert forall|f: FindingView| #[trigger] unsuppressed(s, lc, fc, spans).contains(f) <==> (s.contains(f)
            && !suppressed_spec(f, lc, fc, spans)) by {
            let r = unsuppressed(p, lc, fc, spans);
            if s.contains(f) && f != s.last() {
                let w = choose|w: int| 0 <= w < s.len() && s[w] == f;
                assert(w < p.len());
                assert(p[w] == f);
            }
            if p.contains(f) {
                let w = choose|w: int| 0 <= w < p.len() && p[w] == f;
                assert(s[w] == f);
            }
            if !suppressed_spec(s.last(), lc, fc, spans) {
                assert(r.push(s.last())[r.len() as int] == s.last());
                if r.push(s.last()).contains(f) && f != s.last() {
                    let w = choose|w: int| 0 <= w < r.push(s.last()).len() && r.push(s.last())[w] == f;
                    assert(r[w] == f);
                }
                if r.contains(f) {
                    let w = choose|w: int| 0 <= w < r.len() && r[w] == f;
                    assert(r.push(s.last())[w] == f);
                }
            }
            assert(s[s.len() - 1] == s.last());
        }
    }
}

/// What one file's scan reports: every finding carries the file's path, sorts by line no
/// later than the ones after it, shares its key with no other, is no suppressed finding,
/// and comes from one of the checks; and every key of an unsuppressed check finding is
/// reported.
pub proof fn lemma_file_findings<C: Check>(checks: Seq<C>, file: &SourceFile, source: Seq<char>, label: Seq<char>)
    ensures
        ({
            let r = file_findings_spec(checks, file, source, label);
            let spans = fn_spans_spec(file);
            let lines = lines_spec(source);
            let sup = suppressions_spec(lines, spans, lines.len() as int);
            let raw = with_file_path(all_check_findings(checks, file, checks.len() as int), label);
            &&& sorted_by(r, false)
            &&& distinct_keys(r)
            &&& forall|i: int| 0 <= i < r.len() ==> (#[trigger] r[i]).file_path == label
            &&& forall|i: int| 0 <= i < r.len() ==> !suppressed_spec(#[trigger] r[i], sup.0, sup.1, spans)
            &&& forall|i: int| 0 <= i < r.len() ==> raw.contains(#[trigger] r[i])
            &&& forall|i: int|
                0 <= i < raw.len() && !suppressed_spec(#[trigger] raw[i], sup.0, sup.1, spans) ==> dedup_keys(
                    r,
                ).contains(dedup_key(raw[i]))
        }),
{
    let spans = fn_spans_spec(file);
    let lines = lines_spec(source);
    let sup = suppressions_spec(lines, spans, lines.len() as int);
    let raw = with_file_path(all_check_findings(checks, file, checks.len() as int), label);
    let u = unsuppressed(raw, sup.0, sup.1, spans);
    let srt = sort_findings_spec(u, false);
    let r = dedup_spec(srt);
    lemma_sort_sorted(u, false);
    lemma_dedup_sorted(srt, false);
    lemma_dedup_distinct(srt);
    lemma_dedup_subset(srt);
    lemma_sort_permutation(u, false);
    lemma_unsuppressed_members(raw, sup.0, sup.1, spans);
    srt.to_multiset_ensures();
    u.to_multiset_ensures();
    assert forall|i: int| 0 <= i < r.len() implies raw.contains(#[trigger] r[i]) && !suppressed_spec(
        r[i],
        sup.0,
        sup.1,
        spans,
    ) && r[i].file_path == label by {
        assert(srt.contains(r[i]));
        assert(srt.to_multiset().count(r[i]) > 0);
        assert(u.contains(r[i]));
        assert(raw.contains(r[i]));
        let w = choose|w: int| 0 <= w < raw.len() && raw[w] == r[i];
        let base = all_check_findings(checks, file, checks.len() as int);
        assert(raw[w] == relabel(base[w], label));
    }
    lemma_dedup_keeps_keys(srt);
    assert forall|i: int|
        0 <= i < raw.len() && !suppressed_spec(#[trigger] raw[i], sup.0, sup.1, spans) implies dedup_keys(
            r,
        ).contains(dedup_key(raw[i])) by {
        assert(raw.contains(raw[i]));
        assert(u.contains(raw[i]));
        assert(u.to_multiset().count(raw[i]) > 0);
        assert(srt.contains(raw[i]));
        let w = choose|w: int| 0 <= w < srt.len() && srt[w] == raw[i];
        assert(dedup_keys(srt)[w] == dedup_key(raw[i]));
    }
}

/// What a directory scan reports: findings ordered by file path and then line, no two
/// sharing a key, each one a finding of some file, and every key of the files' findings
/// present.
pub proof fn lemma_directory_findings(per_file: Seq<Seq<FindingView>>)
    ensures
        ({
            let all = concat_findings(per_file, per_file.len() as int);
            let r = dedup_spec(sort_findings_spec(all, true));
            &&& sorted_by(r, true)
            &&& distinct_keys(r)
            &&& forall|i: int| 0 <= i < r.len() ==> all.contains(#[trigger] r[i])
            &&& forall|k: (Seq<char>, usize, Seq<char>, Seq<char>, Seq<char>, crate::finding::Severity)|
                #[trigger] dedup_keys(r).contains(k) <==> dedup_keys(all).contains(k)
        }),
{
    let all = concat_findings(per_file, per_file.len() as int);
    let srt = sort_findings_spec(all, true);
    let r = dedup_spec(srt);
    lemma_sort_sorted(all, true);
    lemma_dedup_sorted(srt, true);
    lemma_dedup_distinct(srt);
    lemma_dedup_subset(srt);
    lemma_dedup_keeps_keys(srt);
    lemma_sort_permutation(all, true);
    srt.to_multiset_ensures();
    all.to_multiset_ensures();
    assert forall|i: int| 0 <= i < r.len() implies all.contains(#[trigger] r[i]) by {
        assert(srt.contains(r[i]));
        assert(srt.to_multiset().count(r[i]) > 0);
    }
    assert forall|k: (Seq<char>, usize, Seq<char>, Seq<char>, Seq<char>, crate::finding::Severity)|
        #[trigger] dedup_keys(r).contains(k) <==> dedup_keys(all).contains(k) by {
        if dedup_keys(srt).contains(k) {
            let w = choose|w: int| 0 <= w < srt.len() && dedup_keys(srt)[w] == k;
            assert(srt.contains(srt[w]));
            assert(all.to_multiset().count(srt[w]) > 0);
            assert(all.contains(srt[w]));
            let v = choose|v: int| 0 <= v < all.len() && all[v] == srt[w];
            assert(dedup_keys(all)[v] == k);
        }
        if dedup_keys(all).contains(k) {
            let v = choose|v: int| 0 <= v < all.len() && dedup_keys(all)[v] == k;
            assert(all.contains(all[v]));
            assert(srt.to_multiset().count(all[v]) > 0);
            assert(srt.contains(all[v]));
            let w = choose|w: int| 0 <= w < srt.len() && srt[w] == all[v];
            assert(dedup_keys(srt)[w] == k);
        }
    }
}

/// What a scan over listed files reports: the files' findings, none lost or added,
/// ordered by file path and then line.
pub proof fn lemma_listed_findings(per_file: Seq<Seq<FindingView>>)
    ensures
        ({
            let all = concat_findings(per_file, per_file.len() as int);
            let r = sort_findings_spec(all, true);
            &&& sorted_by(r, true)
            &&& r.to_multiset() == all.to_multiset()
        }),
{
    let all = concat_findings(per_file, per_file.len() as int);
    lemma_sort_sorted(all, true);
    lemma_sort_permutation(all, true);
}

} // verus!
