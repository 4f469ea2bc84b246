//! In-source suppression comments: `// soroban-guard: allow(check-a, check-b)` on the line
//! above a finding's line, or above a contract method to silence it for that method.
use vstd::prelude::*;
use crate::finding::{Finding, FindingView};
use crate::syntax::SourceFile;
use crate::text::{
    chars_of, find_chars, find_spec, ident_prefix, is_prefix, lines_of, lines_spec, split_by, split_chars,
    starts_with, string_from_chars, take_ident, trim, trim_spec, trim_start, trim_start_spec,
};
use crate::util::{contract_methods, contractimpl_functions_with_type_excluding_test, ty_label, ty_label_spec, views};

verus! {

/// The marker that opens a suppression comment.
pub open spec fn suppression_prefix() -> Seq<char> {
    "// soroban-guard: allow("@
}

/// The trimmed, non-empty entries of `s`, in order.
pub open spec fn nonempty_trimmed(s: Seq<Seq<char>>) -> Seq<Seq<char>>
    decreases s.len(),
{
    if s.len() == 0 {
        Seq::empty()
    } else {
        let rest = nonempty_trimmed(s.drop_last());
        let t = trim_spec(s.last());
        if t.len() > 0 {
            rest.push(t)
        } else {
            rest
        }
    }
}

/// The check names a suppression comment lists: after optional leading white space, the
/// marker, then names separated by `,` up to the first `)`; names are trimmed and empty
/// ones dropped. `None` when the line is no such comment or lists no name.
pub open spec fn allow_checks_spec(line: Seq<char>) -> Option<Seq<Seq<char>>> {
    let t = trim_start_spec(line);
    let p = suppression_prefix();
    if !is_prefix(p, t) {
        None
    } else {
        let rest = t.skip(p.len() as int);
        match find_spec(rest, seq![')']) {
            None => None,
            Some(k) => {
                let names = nonempty_trimmed(split_by(rest.take(k), ','));
                if names.len() == 0 {
                    None
                } else {
                    Some(names)
                }
            },
        }
    }
}

/// The check names listed by a suppression comment on `line`.
pub fn parse_allow_checks(line: &[char]) -> (r: Option<Vec<String>>)
    ensures
        r matches Some(v) ==> allow_checks_spec(line@) == Some(views(v@)),
        r is None ==> allow_checks_spec(line@) is None,
{
    proof {
        reveal_strlit("// soroban-guard: allow(");
    }
    let trimmed = trim_start(line);
    let prefix = chars_of("// soroban-guard: allow(");
    if !starts_with(trimmed.as_slice(), prefix.as_slice()) {
        return None;
    }
    let mut rest: Vec<char> = Vec::new();
    let mut i: usize = prefix.len();
    while i < trimmed.len()
        invariant
            prefix.len() <= i <= trimmed.len(),
            rest@ == trimmed@.subrange(prefix@.len() as int, i as int),
        decreases trimmed.len() - i,
    {
        rest.push(trimmed[i]);
        i += 1;
        assert(rest@ =~= trimmed@.subrange(prefix@.len() as int, i as int));
    }
    assert(rest@ =~= trimmed@.skip(prefix@.len() as int));
    let close = vec![')'];
    assert(close@ =~= seq![')']);
    let k = match find_chars(rest.as_slice(), close.as_slice()) {
        Some(k) => k,
        None => {
            return None;
        },
    };
    let mut inside: Vec<char> = Vec::new();
    let mut j: usize = 0;
    while j < k
        invariant
            0 <= j <= k <= rest.len(),
            inside@ == rest@.take(j as int),
        decreases k - j,
    {
        inside.push(rest[j]);
        j += 1;
        assert(inside@ =~= rest@.take(j as int));
    }
    let pieces = split_chars(inside.as_slice(), ',');
    let ghost pv = pieces@.map_values(|p: Vec<char>| p@);
    let mut names: Vec<String> = Vec::new();
    let mut m: usize = 0;
    while m < pieces.len()
        invariant
            0 <= m <= pieces.len(),
            pv == pieces@.map_values(|p: Vec<char>| p@),
            views(names@) == nonempty_trimmed(pv.take(m as int)),
        decreases pieces.len() - m,
    {
        let t = trim(pieces[m].as_slice());
        let ghost prev = views(names@);
        assert(pv[m as int] == pieces@[m as int]@);
        assert(pv.take(m + 1).drop_last() =~= pv.take(m as int));
        if t.len() > 0 {
            let name = string_from_chars(t.as_slice());
            names.push(name);
            assert(views(names@) =~= prev.push(t@));
        }
        m += 1;
    }
    assert(pv.take(m as int) =~= pv);
    if names.len() == 0 {
        None
    } else {
        Some(names)
    }
}

/// The function a line declares: after optional leading white space, the identifier
/// characters right after the first `fn ` on the line; `None` when there are none.
pub open spec fn fn_name_spec(line: Seq<char>) -> Option<Seq<char>> {
    let t = trim_start_spec(line);
    match find_spec(t, "fn "@) {
        None => None,
        Some(i) => {
            let name = ident_prefix(t.skip(i + 3));
            if name.len() == 0 {
                None
            } else {
                Some(name)
            }
        },
    }
}

/// The function a line declares, if any.
pub fn function_name_from_line(line: &[char]) -> (r: Option<String>)
    ensures
        r matches Some(s) ==> fn_name_spec(line@) == Some(s@),
        r is None ==> fn_name_spec(line@) is None,
{
    proof {
        reveal_strlit("fn ");
    }
    let trimmed = trim_start(line);
    let pat = chars_of("fn ");
    assert(pat@.len() == 3);
    let pos = match find_chars(trimmed.as_slice(), pat.as_slice()) {
        Some(p) => p,
        None => {
            return None;
        },
    };
    let tl = trimmed.len();
    assert(pos + 3 <= tl);
    let mut after: Vec<char> = Vec::new();
    let mut i: usize = pos + 3;
    while i < trimmed.len()
        invariant
            pos + 3 <= trimmed.len(),
            pos + 3 <= i <= trimmed.len(),
            after@ == trimmed@.subrange(pos + 3, i as int),
        decreases trimmed.len() - i,
    {
        after.push(trimmed[i]);
        i += 1;
        assert(after@ =~= trimmed@.subrange(pos + 3, i as int));
    }
    assert(after@ =~= trimmed@.skip(pos + 3));
    let name = take_ident(after.as_slice());
    if name.len() == 0 {
        None
    } else {
        Some(string_from_chars(name.as_slice()))
    }
}

/// The source lines of one `#[contractimpl]` method, with its impl block's type name.
pub struct FnSpan {
    pub impl_type: String,
    pub function_name: String,
    pub start_line: usize,
    pub end_line: usize,
}

pub struct FnSpanView {
    pub impl_type: Seq<char>,
    pub function_name: Seq<char>,
    pub start_line: usize,
    pub end_line: usize,
}

impl View for FnSpan {
    type V = FnSpanView;

    open spec fn view(&self) -> FnSpanView {
        FnSpanView {
            impl_type: self.impl_type@,
            function_name: self.function_name@,
            start_line: self.start_line,
            end_line: self.end_line,
        }
    }
}

pub open spec fn spans_view(s: Seq<FnSpan>) -> Seq<FnSpanView> {
    s.map_values(|x: FnSpan| x@)
}

/// The spans of the file's contract methods, in source order: from the method's name to
/// the closing brace of its body.
pub open spec fn fn_spans_spec(f: &SourceFile) -> Seq<FnSpanView> {
    contract_methods(f).map_values(
        |p: (&crate::syntax::ItemImpl, &crate::syntax::ImplFn)|
            FnSpanView {
                impl_type: ty_label_spec(p.0.self_ty),
                function_name: p.1.sig.ident@,
                start_line: p.1.sig.ident_line,
                end_line: p.1.block.end_line,
            },
    )
}

pub fn build_fn_spans(f: &SourceFile) -> (r: Vec<FnSpan>)
    ensures
        spans_view(r@) == fn_spans_spec(f),
{
    let methods = contractimpl_functions_with_type_excluding_test(f);
    let mut out: Vec<FnSpan> = Vec::new();
    let mut i: usize = 0;
    while i < methods.len()
        invariant
            0 <= i <= methods.len(),
            methods@ == contract_methods(f),
            spans_view(out@) == fn_spans_spec(f).take(i as int),
        decreases methods.len() - i,
    {
        let (imp, m) = methods[i];
        let ghost prev = spans_view(out@);
        out.push(
            FnSpan {
                impl_type: ty_label(&imp.self_ty),
                function_name: m.sig.ident.clone(),
                start_line: m.sig.ident_line,
                end_line: m.block.end_line,
            },
        );
        assert(spans_view(out@) =~= prev.push(out@.last()@));
        assert(fn_spans_spec(f).take(i + 1) =~= fn_spans_spec(f).take(i as int).push(fn_spans_spec(f)[i as int]));
        i += 1;
    }
    assert(fn_spans_spec(f).take(i as int) =~= fn_spans_spec(f));
    out
}

/// The impl type of the first span among the first `k` that satisfies the test (`start`
/// given: starting on that line; otherwise: covering `line`) for function `name`.
pub open spec fn span_type(spans: Seq<FnSpanView>, k: int, name: Seq<char>, line: usize, start: bool) -> Option<Seq<char>>
    decreases k,
{
    if k <= 0 || k > spans.len() {
        None
    } else {
        match span_type(spans, k - 1, name, line, start) {
            Some(t) => Some(t),
            None => {
                let s = spans[k - 1];
                let hit = s.function_name == name && if start {
                    s.start_line == line
                } else {
                    s.start_line <= line && line <= s.end_line
                };
                if hit {
                    Some(s.impl_type)
                } else {
                    None
                }
            },
        }
    }
}

/// The impl type recorded for function `name`, or empty.
pub open spec fn span_type_or_empty(spans: Seq<FnSpanView>, name: Seq<char>, line: usize, start: bool) -> Seq<char> {
    match span_type(spans, spans.len() as int, name, line, start) {
        Some(t) => t,
        None => Seq::empty(),
    }
}

fn find_span_type(spans: &Vec<FnSpan>, name: &String, line: usize, start: bool) -> (r: String)
    ensures
        r@ == span_type_or_empty(spans_view(spans@), name@, line, start),
{
    let ghost sv = spans_view(spans@);
    let mut i: usize = 0;
    while i < spans.len()
        invariant
            0 <= i <= spans.len(),
            sv == spans_view(spans@),
            span_type(sv, i as int, name@, line, start) is None,
        decreases spans.len() - i,
    {
        let s = &spans[i];
        let hit = crate::text::str_eq(s.function_name.as_str(), name.as_str()) && if start {
            s.start_line == line
        } else {
            s.start_line <= line && line <= s.end_line
        };
        assert(sv[i as int] == s@);
        if hit {
            proof {
                lemma_span_type_stable(sv, i + 1, sv.len() as int, name@, line, start);
            }
            return s.impl_type.clone();
        }
        i += 1;
    }
    String::new()
}

proof fn lemma_span_type_stable(spans: Seq<FnSpanView>, a: int, b: int, name: Seq<char>, line: usize, start: bool)
    requires
        0 <= a <= b <= spans.len(),
        span_type(spans, a, name, line, start) is Some,
    ensures
        span_type(spans, b, name, line, start) == span_type(spans, a, name, line, start),
    decreases b - a,
{
    if a < b {
        lemma_span_type_stable(spans, a, b - 1, name, line, start);
    }
}

/// Suppressed `(line, check)` pairs and `(impl type, function, check)` triples.
pub struct Suppressions {
    pub line_checks: Vec<(usize, String)>,
    pub function_checks: Vec<(String, String, String)>,
}

pub open spec fn line_entries(v: Seq<(usize, String)>) -> Seq<(usize, Seq<char>)> {
    v.map_values(|p: (usize, String)| (p.0, p.1@))
}

pub open spec fn fn_entries(v: Seq<(String, String, String)>) -> Seq<(Seq<char>, Seq<char>, Seq<char>)> {
    v.map_values(|p: (String, String, String)| (p.0@, p.1@, p.2@))
}

/// The suppressions the first `k` lines contribute. A comment on line `i` (0-based) targets
/// line `i + 2` (1-based): when that line declares a function, each listed check is
/// suppressed for that function (within the impl whose method span starts there);
/// otherwise for that line.
pub open spec fn suppressions_spec(lines: Seq<Seq<char>>, spans: Seq<FnSpanView>, k: int) -> (Seq<(usize, Seq<char>)>, Seq<(Seq<char>, Seq<char>, Seq<char>)>)
    decreases k,
{
    if k <= 0 || k > lines.len() {
        (Seq::empty(), Seq::empty())
    } else {
        let (lc, fc) = suppressions_spec(lines, spans, k - 1);
        let idx = k - 1;
        match allow_checks_spec(lines[idx]) {
            None => (lc, fc),
            Some(cs) => if idx + 1 >= lines.len() {
                (lc, fc)
            } else {
                let target = (idx + 2) as usize;
                match fn_name_spec(lines[idx + 1]) {
                    Some(f) => {
                        let t = span_type_or_empty(spans, f, target, true);
                        (lc, fc + cs.map_values(|c: Seq<char>| (t, f, c)))
                    },
                    None => (lc + cs.map_values(|c: Seq<char>| (target, c)), fc),
                }
            },
        }
    }
}

/// The suppressions a source text declares.
pub fn parse_suppressions(source: &str, fn_spans: &Vec<FnSpan>) -> (r: Suppressions)
    ensures
        ({
            let lines = lines_spec(source@);
            let (lc, fc) = suppressions_spec(lines, spans_view(fn_spans@), lines.len() as int);
            &&& line_entries(r.line_checks@) == lc
            &&& fn_entries(r.function_checks@) == fc
        }),
{
    let lines = lines_of(source);
    let ghost lv = lines@.map_values(|p: Vec<char>| p@);
    let ghost sv = spans_view(fn_spans@);
    let mut sup = Suppressions { line_checks: Vec::new(), function_checks: Vec::new() };
    assert(line_entries(sup.line_checks@) =~= Seq::<(usize, Seq<char>)>::empty());
    assert(fn_entries(sup.function_checks@) =~= Seq::<(Seq<char>, Seq<char>, Seq<char>)>::empty());
    let mut idx: usize = 0;
    while idx < lines.len()
        invariant
            0 <= idx <= lines.len(),
            lv == lines@.map_values(|p: Vec<char>| p@),
            lv == lines_spec(source@),
            sv == spans_view(fn_spans@),
            line_entries(sup.line_checks@) == suppressions_spec(lv, sv, idx as int).0,
            fn_entries(sup.function_checks@) == suppressions_spec(lv, sv, idx as int).1,
        decreases lines.len() - idx,
    {
        assert(lv[idx as int] == lines@[idx as int]@);
        if let Some(checks) = parse_allow_checks(lines[idx].as_slice()) {
            let target_idx = idx + 1;
            if target_idx < lines.len() {
                assert(lv[target_idx as int] == lines@[target_idx as int]@);
                let target_line_number = target_idx + 1;
                match function_name_from_line(lines[target_idx].as_slice()) {
                    Some(function_name) => {
                        let impl_type = find_span_type(fn_spans, &function_name, target_line_number, true);
                        let ghost base = fn_entries(sup.function_checks@);
                        let ghost other = line_entries(sup.line_checks@);
                        let ghost cs = views(checks@);
                        let ghost t = impl_type@;
                        let ghost fname = function_name@;
                        let mut c: usize = 0;
                        while c < checks.len()
                            invariant
                                0 <= c <= checks.len(),
                                cs == views(checks@),
                                fn_entries(sup.function_checks@) == base + cs.take(c as int).map_values(
                                    |x: Seq<char>| (t, fname, x),
                                ),
                                t == impl_type@,
                                fname == function_name@,
                                line_entries(sup.line_checks@) == other,
                            decreases checks.len() - c,
                        {
                            let ghost prev = fn_entries(sup.function_checks@);
                            sup.function_checks.push((impl_type.clone(), function_name.clone(), checks[c].clone()));
                            assert(fn_entries(sup.function_checks@) =~= prev.push((t, fname, checks@[c as int]@)));
                            assert(cs.take(c + 1) =~= cs.take(c as int).push(cs[c as int]));
                            assert(cs.take(c + 1).map_values(|x: Seq<char>| (t, fname, x)) =~= cs.take(c as int).map_values(
                                |x: Seq<char>| (t, fname, x),
                            ).push((t, fname, cs[c as int])));
                            c += 1;
                        }
                        assert(cs.take(c as int) =~= cs);
                        assert(fn_entries(sup.function_checks@) =~= base + cs.map_values(|x: Seq<char>| (t, fname, x)));
                    },
                    None => {
                        let ghost base = line_entries(sup.line_checks@);
                        let ghost other = fn_entries(sup.function_checks@);
                        let ghost cs = views(checks@);
                        let mut c: usize = 0;
                        while c < checks.len()
                            invariant
                                0 <= c <= checks.len(),
                                cs == views(checks@),
                                line_entries(sup.line_checks@) == base + cs.take(c as int).map_values(
                                    |x: Seq<char>| (target_line_number, x),
                                ),
                                fn_entries(sup.function_checks@) == other,
                            decreases checks.len() - c,
                        {
                            let ghost prev = line_entries(sup.line_checks@);
                            sup.line_checks.push((target_line_number, checks[c].clone()));
                            assert(line_entries(sup.line_checks@) =~= prev.push((target_line_number, checks@[c as int]@)));
                            assert(cs.take(c + 1) =~= cs.take(c as int).push(cs[c as int]));
                            assert(cs.take(c + 1).map_values(|x: Seq<char>| (target_line_number, x)) =~= cs.take(
                                c as int,
                            ).map_values(|x: Seq<char>| (target_line_number, x)).push((target_line_number, cs[c as int])));
                            c += 1;
                        }
                        assert(cs.take(c as int) =~= cs);
                        assert(line_entries(sup.line_checks@) =~= base + cs.map_values(
                            |x: Seq<char>| (target_line_number, x),
                        ));
                    },
                }
            }
        }
        idx += 1;
    }
    sup
}

/// The finding is suppressed: by line, or for its function within the impl whose method
/// span covers the finding's line.
pub open spec fn suppressed_spec(
    f: FindingView,
    lc: Seq<(usize, Seq<char>)>,
    fc: Seq<(Seq<char>, Seq<char>, Seq<char>)>,
    spans: Seq<FnSpanView>,
) -> bool {
    ||| lc.contains((f.line, f.check_name))
    ||| fc.contains((span_type_or_empty(spans, f.function_name, f.line, false), f.function_name, f.check_name))
}

fn contains_line_entry(v: &Vec<(usize, String)>, line: usize, check: &String) -> (r: bool)
    ensures
        r == line_entries(v@).contains((line, check@)),
{
    let ghost ev = line_entries(v@);
    let mut i: usize = 0;
    while i < v.len()
        invariant
            0 <= i <= v.len(),
            ev == line_entries(v@),
            forall|j: int| 0 <= j < i ==> ev[j] != (line, check@),
        decreases v.len() - i,
    {
        if v[i].0 == line && crate::text::str_eq(v[i].1.as_str(), check.as_str()) {
            assert(ev[i as int] == (line, check@));
            return true;
        }
        assert(ev[i as int] == (v@[i as int].0, v@[i as int].1@));
        i += 1;
    }
    false
}

fn contains_fn_entry(v: &Vec<(String, String, String)>, t: &String, f: &String, check: &String) -> (r: bool)
    ensures
        r == fn_entries(v@).contains((t@, f@, check@)),
{
    let ghost ev = fn_entries(v@);
    let mut i: usize = 0;
    while i < v.len()
        invariant
            0 <= i <= v.len(),
            ev == fn_entries(v@),
            forall|j: int| 0 <= j < i ==> ev[j] != (t@, f@, check@),
        decreases v.len() - i,
    {
        assert(ev[i as int] == (v@[i as int].0@, v@[i as int].1@, v@[i as int].2@));
        if crate::text::str_eq(v[i].0.as_str(), t.as_str()) && crate::text::str_eq(v[i].1.as_str(), f.as_str())
            && crate::text::str_eq(v[i].2.as_str(), check.as_str()) {
            return true;
        }
        i += 1;
    }
    false
}

/// Whether a finding is suppressed.
pub fn is_suppressed(finding: &Finding, suppressions: &Suppressions, fn_spans: &Vec<FnSpan>) -> (r: bool)
    ensures
        r == suppressed_spec(
            finding@,
            line_entries(suppressions.line_checks@),
            fn_entries(suppressions.function_checks@),
            spans_view(fn_spans@),
        ),
{
    if contains_line_entry(&suppressions.line_checks, finding.line, &finding.check_name) {
        return true;
    }
    let impl_type = find_span_type(fn_spans, &finding.function_name, finding.line, false);
    contains_fn_entry(&suppressions.function_checks, &impl_type, &finding.function_name, &finding.check_name)
}


proof fn lemma_suppressions_grow(lines: Seq<Seq<char>>, spans: Seq<FnSpanView>, a: int, b: int)
    requires
        0 <= a <= b <= lines.len(),
    ensures
        forall|e: (usize, Seq<char>)| #[trigger] suppressions_spec(lines, spans, a).0.contains(e) ==> suppressions_spec(
            lines,
            spans,
            b,
        ).0.contains(e),
        forall|e: (Seq<char>, Seq<char>, Seq<char>)| #[trigger] suppressions_spec(lines, spans, a).1.contains(e)
            ==> suppressions_spec(lines, spans, b).1.contains(e),
    decreases b - a,
{
    if a < b {
        lemma_suppressions_grow(lines, spans, a, b - 1);
        let p = suppressions_spec(lines, spans, b - 1);
        let q = suppressions_spec(lines, spans, b);
        assert forall|e: (usize, Seq<char>)| #[trigger] p.0.contains(e) implies q.0.contains(e) by {
            let w = choose|w: int| 0 <= w < p.0.len() && p.0[w] == e;
            assert(q.0[w] == e);
        }
        assert forall|e: (Seq<char>, Seq<char>, Seq<char>)| #[trigger] p.1.contains(e) implies q.1.contains(e) by {
            let w = choose|w: int| 0 <= w < p.1.len() && p.1[w] == e;
            assert(q.1[w] == e);
        }
    }
}

/// A suppression comment on line `idx` (0-based) that lists `check`, followed by a line
/// that declares no function, silences `check` on that next line (number `idx + 2`).
pub proof fn lemma_comment_suppresses_next_line(
    lines: Seq<Seq<char>>,
    spans: Seq<FnSpanView>,
    idx: int,
    check: Seq<char>,
    f: FindingView,
)
    requires
        0 <= idx,
        idx + 1 < lines.len(),
        allow_checks_spec(lines[idx]) matches Some(cs) && cs.contains(check),
        fn_name_spec(lines[idx + 1]) is None,
        f.line == idx + 2,
        f.check_name == check,
    ensures
        ({
            let sup = suppressions_spec(lines, spans, lines.len() as int);
            suppressed_spec(f, sup.0, sup.1, spans)
        }),
{
    let cs = allow_checks_spec(lines[idx])->0;
    let p = suppressions_spec(lines, spans, idx);
    let target = (idx + 2) as usize;
    let added = cs.map_values(|c: Seq<char>| (target, c));
    let w = choose|w: int| 0 <= w < cs.len() && cs[w] == check;
    assert(suppressions_spec(lines, spans, idx + 1).0 == p.0 + added);
    assert((p.0 + added)[p.0.len() + w] == (target, check));
    assert(suppressions_spec(lines, spans, idx + 1).0.contains((target, check)));
    lemma_suppressions_grow(lines, spans, idx + 1, lines.len() as int);
    assert(target == f.line);
}

/// A suppression comment on line `idx` (0-based) that lists `check`, followed by a line
/// declaring function `name`, records `check` as suppressed for `name` within the impl type
/// of the method span that starts on that line (empty when none does).
pub proof fn lemma_comment_suppresses_function(
    lines: Seq<Seq<char>>,
    spans: Seq<FnSpanView>,
    idx: int,
    check: Seq<char>,
    name: Seq<char>,
)
    requires
        0 <= idx,
        idx + 1 < lines.len(),
        allow_checks_spec(lines[idx]) matches Some(cs) && cs.contains(check),
        fn_name_spec(lines[idx + 1]) == Some(name),
    ensures
        suppressions_spec(lines, spans, lines.len() as int).1.contains(
            (span_type_or_empty(spans, name, (idx + 2) as usize, true), name, check),
        ),
{
    let cs = allow_checks_spec(lines[idx])->0;
    let p = suppressions_spec(lines, spans, idx);
    let t = span_type_or_empty(spans, name, (idx + 2) as usize, true);
    let added = cs.map_values(|c: Seq<char>| (t, name, c));
    let w = choose|w: int| 0 <= w < cs.len() && cs[w] == check;
    assert(suppressions_spec(lines, spans, idx + 1).1 == p.1 + added);
    assert((p.1 + added)[p.1.len() + w] == (t, name, check));
    assert(suppressions_spec(lines, spans, idx + 1).1.contains((t, name, check)));
    lemma_suppressions_grow(lines, spans, idx + 1, lines.len() as int);
}

}
