//! The scan pipeline's decisions: which files take part, how one file's findings are
//! filtered, ordered and de-duplicated, and how the files' findings are merged.
//!
//! Walking directories and reading files belongs to the front end; it hands this module
//! paths as text, the first lines of a file, and the parsed file.
use vstd::prelude::*;
use crate::finding::{findings_view, Check, Finding, FindingView, Severity};
use crate::suppress::{
    build_fn_spans, fn_spans_spec, is_suppressed, parse_suppressions, suppressed_spec, suppressions_spec,
    FnSpan, FnSpanView, line_entries, fn_entries, spans_view, Suppressions,
};
use crate::syntax::SourceFile;
use crate::text::{chars_of, is_prefix, lines_spec, str_eq, str_starts_with, trim_start, trim_start_spec};

verus! {

/// Why a scan stopped.
pub enum ScanError {
    /// Reading the file system failed; `message` is the system's description.
    Io { message: String },
    /// Reading the file at `path` failed.
    IoRead { path: String, message: String },
    PermissionDenied { path: String },
    Parse { path: String, message: String },
    CheckPanic { check: String, path: String, message: String },
    InvalidGlobPattern { pattern: String, reason: String },
}

impl ScanError {
    /// The error's text as the tool prints it.
    pub open spec fn message_spec(&self) -> Seq<char> {
        match self {
            ScanError::Io { message } => "IO error: "@ + message@,
            ScanError::IoRead { path, message } => "Failed to read "@ + path@ + ": "@ + message@,
            ScanError::PermissionDenied { path } => "Permission denied reading "@ + path@,
            ScanError::Parse { path, message } => "Failed to parse "@ + path@ + ": "@ + message@,
            ScanError::CheckPanic { check, path, message } => "Check `"@ + check@ + "` panicked on "@ + path@
                + ": "@ + message@,
            ScanError::InvalidGlobPattern { pattern, reason } => "Invalid glob pattern `"@ + pattern@ + "`: "@
                + reason@,
        }
    }

    /// The error's text, e.g. ``Invalid glob pattern `src/[a.rs`: ...``.
    pub fn message(&self) -> (r: String)
        ensures
            r@ == self.message_spec(),
    {
        match self {
            ScanError::Io { message } => {
                let mut s = String::from_str("IO error: ");
                s.append(message.as_str());
                s
            },
            ScanError::IoRead { path, message } => {
                let mut s = String::from_str("Failed to read ");
                s.append(path.as_str());
                s.append(": ");
                s.append(message.as_str());
                s
            },
            ScanError::PermissionDenied { path } => {
                let mut s = String::from_str("Permission denied reading ");
                s.append(path.as_str());
                s
            },
            ScanError::Parse { path, message } => {
                let mut s = String::from_str("Failed to parse ");
                s.append(path.as_str());
                s.append(": ");
                s.append(message.as_str());
                s
            },
            ScanError::CheckPanic { check, path, message } => {
                let mut s = String::from_str("Check `");
                s.append(check.as_str());
                s.append("` panicked on ");
                s.append(path.as_str());
                s.append(": ");
                s.append(message.as_str());
                s
            },
            ScanError::InvalidGlobPattern { pattern, reason } => {
                let mut s = String::from_str("Invalid glob pattern `");
                s.append(pattern.as_str());
                s.append("`: ");
                s.append(reason.as_str());
                s
            },
        }
    }
}

#[verifier::external_type_specification]
#[verifier::external_body]
pub struct ExGlobPattern(glob::Pattern);

/// What `glob::Pattern::new` returns for a pattern text: `None` when it compiles, else the
/// position and message of its `PatternError`. glob treats path separators as the build
/// target does, so this holds for the target the crate is built for.
pub uninterp spec fn glob_error(pattern: Seq<char>) -> Option<(usize, Seq<char>)>;

/// Whether the compiled form of `pattern` matches `text` (`glob::Pattern::matches`, with
/// the default options). glob treats path separators as the build target does, so this
/// holds for the target the crate is built for.
pub uninterp spec fn pattern_matches(pattern: Seq<char>, text: Seq<char>) -> bool;

/// A compiled glob pattern together with the text it was compiled from.
pub struct GlobPattern {
    source: String,
    compiled: glob::Pattern,
}

impl View for GlobPattern {
    type V = Seq<char>;

    closed spec fn view(&self) -> Seq<char> {
        self.source@
    }
}

/// The position and message of a pattern syntax error.
pub struct GlobSyntaxError {
    pub pos: usize,
    pub msg: String,
}

/// Compiles `pattern` with `glob::Pattern::new`; the outcome is named by `glob_error`.
#[verifier::external_body]
fn compile_glob(pattern: &String) -> (r: Result<GlobPattern, GlobSyntaxError>)
    ensures
        match r {
            Ok(g) => g@ == pattern@ && glob_error(pattern@) is None,
            Err(e) => glob_error(pattern@) == Some((e.pos, e.msg@)),
        },
{
    match glob::Pattern::new(pattern.as_str()) {
        Ok(compiled) => Ok(GlobPattern { source: pattern.clone(), compiled }),
        Err(e) => Err(GlobSyntaxError { pos: e.pos, msg: e.msg.to_string() }),
    }
}

/// Matches `text` against a compiled pattern with `glob::Pattern::matches`; the result is
/// named by `pattern_matches` over the pattern's source text.
#[verifier::external_body]
fn glob_match(p: &GlobPattern, text: &str) -> (r: bool)
    ensures
        r == pattern_matches(p@, text@),
{
    p.compiled.matches(text)
}

/// The reason text of a pattern syntax error (glob's `Display` for `PatternError`).
pub open spec fn glob_reason(pos: usize, msg: Seq<char>) -> Seq<char> {
    "Pattern syntax error near position "@ + crate::text::decimal(pos as nat) + ": "@ + msg
}

/// The index of the first pattern among the first `k` that does not compile.
pub open spec fn first_bad_glob(ps: Seq<Seq<char>>, k: int) -> Option<int>
    decreases k,
{
    if k <= 0 || k > ps.len() {
        None
    } else {
        match first_bad_glob(ps, k - 1) {
            Some(i) => Some(i),
            None => if glob_error(ps[k - 1]) is Some {
                Some(k - 1)
            } else {
                None
            },
        }
    }
}

proof fn lemma_first_bad_stable(ps: Seq<Seq<char>>, a: int, b: int)
    requires
        0 <= a <= b <= ps.len(),
        first_bad_glob(ps, a) is Some,
    ensures
        first_bad_glob(ps, b) == first_bad_glob(ps, a),
    decreases b - a,
{
    if a < b {
        lemma_first_bad_stable(ps, a, b - 1);
    }
}

/// Compiles every pattern, in order. The first one that does not compile stops the scan with
/// `InvalidGlobPattern`, naming it and glob's reason.
pub fn compile_globs(patterns: &Vec<String>) -> (r: Result<Vec<GlobPattern>, ScanError>)
    ensures
        match r {
            Ok(v) => first_bad_glob(crate::util::views(patterns@), patterns@.len() as int) is None && v@.len()
                == patterns@.len() && forall|i: int| 0 <= i < v@.len() ==> #[trigger] v@[i]@ == patterns@[i]@,
            Err(e) => match first_bad_glob(crate::util::views(patterns@), patterns@.len() as int) {
                Some(i) => match glob_error(patterns@[i]@) {
                    Some(pe) => e matches ScanError::InvalidGlobPattern { pattern, reason } && pattern@
                        == patterns@[i]@ && reason@ == glob_reason(pe.0, pe.1),
                    None => false,
                },
                None => false,
            },
        },
{
    let ghost ps = crate::util::views(patterns@);
    let mut out: Vec<GlobPattern> = Vec::new();
    let mut i: usize = 0;
    while i < patterns.len()
        invariant
            0 <= i <= patterns.len(),
            ps == crate::util::views(patterns@),
            first_bad_glob(ps, i as int) is None,
            out@.len() == i,
            forall|j: int| 0 <= j < i ==> #[trigger] out@[j]@ == patterns@[j]@,
        decreases patterns.len() - i,
    {
        match compile_glob(&patterns[i]) {
            Ok(g) => {
                out.push(g);
            },
            Err(e) => {
                assert(first_bad_glob(ps, i + 1) == Some(i as int));
                proof {
                    lemma_first_bad_stable(ps, i + 1, patterns@.len() as int);
                }
                let mut reason = String::from_str("Pattern syntax error near position ");
                let pos_text = crate::text::decimal_string(e.pos as u64);
                reason.append(pos_text.as_str());
                reason.append(": ");
                reason.append(e.msg.as_str());
                return Err(ScanError::InvalidGlobPattern { pattern: patterns[i].clone(), reason });
            },
        }
        i += 1;
    }
    Ok(out)
}

/// The path names a `.rs` file and passes through no directory named `target` or `.git`.
pub open spec fn is_candidate_spec(components: Seq<Seq<char>>, extension: Option<Seq<char>>) -> bool {
    &&& !components.contains("target"@)
    &&& !components.contains(".git"@)
    &&& extension == Some("rs"@)
}

/// Whether a walked file is a Rust source the scan considers, from the components of its
/// path and its extension.
pub fn is_rust_source_candidate(components: &Vec<String>, extension: &Option<String>) -> (r: bool)
    ensures
        r == is_candidate_spec(crate::util::views(components@), crate::finding::opt_text(*extension)),
{
    if crate::util::vec_contains_str(components, "target") || crate::util::vec_contains_str(components, ".git") {
        return false;
    }
    match extension {
        Some(e) => str_eq(e.as_str(), "rs"),
        None => false,
    }
}

/// The source texts of compiled patterns.
pub open spec fn globs_view(v: Seq<GlobPattern>) -> Seq<Seq<char>> {
    v.map_values(|g: GlobPattern| g@)
}

/// Some pattern matches the path relative to the root or the full path.
pub open spec fn any_glob_matches(ps: Seq<Seq<char>>, label: Seq<char>, full: Seq<char>) -> bool {
    exists|i: int| 0 <= i < ps.len() && (pattern_matches(#[trigger] ps[i], label) || pattern_matches(ps[i], full))
}

/// A file is scanned when no exclude pattern matches it and, if include patterns are
/// given, one of them does.
pub open spec fn selected_spec(excludes: Seq<Seq<char>>, includes: Seq<Seq<char>>, label: Seq<char>, full: Seq<char>) -> bool {
    !any_glob_matches(excludes, label, full) && (includes.len() == 0 || any_glob_matches(includes, label, full))
}

/// Whether some pattern matches the path relative to the root or the full path.
pub fn glob_matches(ps: &Vec<GlobPattern>, label: &str, full: &str) -> (r: bool)
    ensures
        r == any_glob_matches(globs_view(ps@), label@, full@),
{
    let ghost gv = globs_view(ps@);
    let mut i: usize = 0;
    while i < ps.len()
        invariant
            0 <= i <= ps.len(),
            gv == globs_view(ps@),
            forall|j: int| 0 <= j < i ==> !(pattern_matches(#[trigger] gv[j], label@) || pattern_matches(gv[j], full@)),
        decreases ps.len() - i,
    {
        assert(gv[i as int] == ps@[i as int]@);
        if glob_match(&ps[i], label) || glob_match(&ps[i], full) {
            return true;
        }
        i += 1;
    }
    false
}

/// Whether a candidate file passes the exclude and include filters; `label` is its path
/// relative to the scan root and `full` its full path.
pub fn path_selected(excludes: &Vec<GlobPattern>, includes: &Vec<GlobPattern>, label: &str, full: &str) -> (r: bool)
    ensures
        r == selected_spec(globs_view(excludes@), globs_view(includes@), label@, full@),
{
    if glob_matches(excludes, label, full) {
        return false;
    }
    includes.len() == 0 || glob_matches(includes, label, full)
}

/// A line that marks a generated file: after leading white space it starts with
/// `// @generated`, `// Code generated` or `// DO NOT EDIT`.
pub open spec fn generated_marker(line: Seq<char>) -> bool {
    let t = trim_start_spec(line);
    is_prefix("// @generated"@, t) || is_prefix("// Code generated"@, t) || is_prefix("// DO NOT EDIT"@, t)
}

/// One of the first five lines marks the file as generated.
pub open spec fn generated_header_spec(lines: Seq<Seq<char>>) -> bool {
    exists|i: int| 0 <= i < lines.len() && i < 5 && #[trigger] generated_marker(lines[i])
}

/// Whether the file's first lines (as read, at most five of them matter) carry a
/// generated-file header; such files are skipped and counted.
pub fn has_generated_header(first_lines: &Vec<String>) -> (r: bool)
    ensures
        r == generated_header_spec(crate::util::views(first_lines@)),
{
    let ghost lv = crate::util::views(first_lines@);
    let mut i: usize = 0;
    while i < first_lines.len() && i < 5
        invariant
            0 <= i <= first_lines.len(),
            i <= 5,
            lv == crate::util::views(first_lines@),
            forall|j: int| 0 <= j < i ==> !#[trigger] generated_marker(lv[j]),
        decreases first_lines.len() - i,
    {
        let cs = chars_of(first_lines[i].as_str());
        let t = trim_start(cs.as_slice());
        let a = chars_of("// @generated");
        let b = chars_of("// Code generated");
        let c = chars_of("// DO NOT EDIT");
        assert(lv[i as int] == first_lines@[i as int]@);
        if crate::text::starts_with(t.as_slice(), a.as_slice()) || crate::text::starts_with(t.as_slice(), b.as_slice())
            || crate::text::starts_with(t.as_slice(), c.as_slice()) {
            assert(generated_marker(lv[i as int]));
            return true;
        }
        i += 1;
    }
    false
}

/// Lexicographic order of texts by character (the order of `str`'s `cmp`): `a` sorts no
/// later than `b`.
pub open spec fn text_le(a: Seq<char>, b: Seq<char>) -> bool
    decreases a.len(),
{
    if a.len() == 0 {
        true
    } else if b.len() == 0 {
        false
    } else if a[0] != b[0] {
        a[0] < b[0]
    } else {
        text_le(a.drop_first(), b.drop_first())
    }
}

/// Whether `a` sorts no later than `b`.
pub fn text_le_exec(a: &str, b: &str) -> (r: bool)
    ensures
        r == text_le(a@, b@),
{
    let x = chars_of(a);
    let y = chars_of(b);
    let mut i: usize = 0;
    assert(x@.skip(0) =~= x@);
    assert(y@.skip(0) =~= y@);
    while i < x.len() && i < y.len() && x[i] == y[i]
        invariant
            0 <= i <= x@.len(),
            i <= y@.len(),
            text_le(x@, y@) == text_le(x@.skip(i as int), y@.skip(i as int)),
        decreases x.len() - i,
    {
        assert(x@.skip(i as int).drop_first() =~= x@.skip(i + 1));
        assert(y@.skip(i as int).drop_first() =~= y@.skip(i + 1));
        i += 1;
    }
    if i == x.len() {
        return true;
    }
    if i == y.len() {
        return false;
    }
    assert(x@.skip(i as int)[0] == x@[i as int]);
    assert(y@.skip(i as int)[0] == y@[i as int]);
    x[i] < y[i]
}

/// The sort order of findings: by line, or (`by_file`) by file path and then line.
pub open spec fn key_le(a: FindingView, b: FindingView, by_file: bool) -> bool {
    if by_file && a.file_path != b.file_path {
        text_le(a.file_path, b.file_path)
    } else {
        a.line <= b.line
    }
}

fn key_le_exec(a: &Finding, b: &Finding, by_file: bool) -> (r: bool)
    ensures
        r == key_le(a@, b@, by_file),
{
    if by_file && !str_eq(a.file_path.as_str(), b.file_path.as_str()) {
        text_le_exec(a.file_path.as_str(), b.file_path.as_str())
    } else {
        a.line <= b.line
    }
}

/// How many leading findings of `t` sort no later than `x`.
pub open spec fn leading_le(t: Seq<FindingView>, x: FindingView, by_file: bool) -> nat
    decreases t.len(),
{
    if t.len() > 0 && key_le(t[0], x, by_file) {
        1 + leading_le(t.drop_first(), x, by_file)
    } else {
        0
    }
}

/// `t` with `x` placed after its leading findings that sort no later than `x`.
pub open spec fn insert_finding(t: Seq<FindingView>, x: FindingView, by_file: bool) -> Seq<FindingView> {
    t.insert(leading_le(t, x, by_file) as int, x)
}

/// The findings in order (a stable insertion sort: each finding in turn is placed after
/// the earlier ones that sort no later than it).
pub open spec fn sort_findings_spec(s: Seq<FindingView>, by_file: bool) -> Seq<FindingView>
    decreases s.len(),
{
    if s.len() == 0 {
        s
    } else {
        insert_finding(sort_findings_spec(s.drop_last(), by_file), s.last(), by_file)
    }
}

proof fn lemma_leading_le_bound(t: Seq<FindingView>, x: FindingView, by_file: bool)
    ensures
        leading_le(t, x, by_file) <= t.len(),
        forall|j: int| 0 <= j < leading_le(t, x, by_file) ==> key_le(#[trigger] t[j], x, by_file),
        leading_le(t, x, by_file) < t.len() ==> !key_le(t[leading_le(t, x, by_file) as int], x, by_file),
    decreases t.len(),
{
    if t.len() > 0 && key_le(t[0], x, by_file) {
        lemma_leading_le_bound(t.drop_first(), x, by_file);
        assert forall|j: int| 0 <= j < leading_le(t, x, by_file) implies key_le(#[trigger] t[j], x, by_file) by {
            if j > 0 {
                assert(t[j] == t.drop_first()[j - 1]);
            }
        }
    }
}

fn insert_sorted(v: &mut Vec<Finding>, x: Finding, by_file: bool)
    ensures
        findings_view(final(v)@) == insert_finding(findings_view(old(v)@), x@, by_file),
{
    let ghost fv = findings_view(v@);
    proof {
        lemma_leading_le_bound(fv, x@, by_file);
    }
    let mut k: usize = 0;
    while k < v.len() && key_le_exec(&v[k], &x, by_file)
        invariant
            0 <= k <= v.len(),
            fv == findings_view(v@),
            k <= leading_le(fv, x@, by_file),
            leading_le(fv, x@, by_file) <= fv.len(),
            leading_le(fv, x@, by_file) < fv.len() ==> !key_le(fv[leading_le(fv, x@, by_file) as int], x@, by_file),
        decreases v.len() - k,
    {
        assert(fv[k as int] == v@[k as int]@);
        k += 1;
    }
    proof {
        if k < v.len() {
            assert(fv[k as int] == v@[k as int]@);
        }
    }
    assert(k == leading_le(fv, x@, by_file));
    let ghost xv = x@;
    v.insert(k, x);
    assert(findings_view(v@) =~= fv.insert(k as int, xv));
}

/// The findings in the order of `sort_findings_spec`.
pub fn sort_findings(s: &Vec<Finding>, by_file: bool) -> (r: Vec<Finding>)
    ensures
        findings_view(r@) == sort_findings_spec(findings_view(s@), by_file),
{
    let ghost sv = findings_view(s@);
    let mut r: Vec<Finding> = Vec::new();
    let mut i: usize = 0;
    while i < s.len()
        invariant
            0 <= i <= s.len(),
            sv == findings_view(s@),
            findings_view(r@) == sort_findings_spec(sv.take(i as int), by_file),
        decreases s.len() - i,
    {
        assert(sv.take(i + 1).drop_last() =~= sv.take(i as int));
        assert(sv.take(i + 1).last() == s@[i as int]@);
        let x = s[i].duplicate();
        insert_sorted(&mut r, x, by_file);
        i += 1;
    }
    assert(sv.take(i as int) =~= sv);
    r
}

/// What tells two findings apart: everything but the rule link and the suggestion.
pub open spec fn dedup_key(f: FindingView) -> (Seq<char>, usize, Seq<char>, Seq<char>, Seq<char>, Severity) {
    (f.file_path, f.line, f.check_name, f.function_name, f.description, f.severity)
}

pub open spec fn dedup_keys(s: Seq<FindingView>) -> Seq<(Seq<char>, usize, Seq<char>, Seq<char>, Seq<char>, Severity)> {
    s.map_values(|f: FindingView| dedup_key(f))
}

/// The findings with every later one whose key an earlier one has dropped.
pub open spec fn dedup_spec(s: Seq<FindingView>) -> Seq<FindingView>
    decreases s.len(),
{
    if s.len() == 0 {
        s
    } else {
        let d = dedup_spec(s.drop_last());
        if dedup_keys(d).contains(dedup_key(s.last())) {
            d
        } else {
            d.push(s.last())
        }
    }
}

fn same_key(a: &Finding, b: &Finding) -> (r: bool)
    ensures
        r == (dedup_key(a@) == dedup_key(b@)),
{
    str_eq(a.file_path.as_str(), b.file_path.as_str()) && a.line == b.line && str_eq(
        a.check_name.as_str(),
        b.check_name.as_str(),
    ) && str_eq(a.function_name.as_str(), b.function_name.as_str()) && str_eq(
        a.description.as_str(),
        b.description.as_str(),
    ) && a.severity == b.severity
}

fn has_key(v: &Vec<Finding>, f: &Finding) -> (r: bool)
    ensures
        r == dedup_keys(findings_view(v@)).contains(dedup_key(f@)),
{
    let ghost kv = dedup_keys(findings_view(v@));
    let mut i: usize = 0;
    while i < v.len()
        invariant
            0 <= i <= v.len(),
            kv == dedup_keys(findings_view(v@)),
            forall|j: int| 0 <= j < i ==> kv[j] != dedup_key(f@),
        decreases v.len() - i,
    {
        assert(kv[i as int] == dedup_key(v@[i as int]@));
        if same_key(&v[i], f) {
            return true;
        }
        i += 1;
    }
    false
}

/// The findings without repeats of a key, first occurrences kept in order.
pub fn dedup_findings(s: &Vec<Finding>) -> (r: Vec<Finding>)
    ensures
        findings_view(r@) == dedup_spec(findings_view(s@)),
{
    let ghost sv = findings_view(s@);
    let mut r: Vec<Finding> = Vec::new();
    let mut i: usize = 0;
    while i < s.len()
        invariant
            0 <= i <= s.len(),
            sv == findings_view(s@),
            findings_view(r@) == dedup_spec(sv.take(i as int)),
        decreases s.len() - i,
    {
        assert(sv.take(i + 1).drop_last() =~= sv.take(i as int));
        assert(sv.take(i + 1).last() == s@[i as int]@);
        if !has_key(&r, &s[i]) {
            let ghost prev = r@;
            r.push(s[i].duplicate());
            assert(findings_view(r@) =~= findings_view(prev).push(s@[i as int]@));
        }
        i += 1;
    }
    assert(sv.take(i as int) =~= sv);
    r
}

/// Every check's findings for `file`, check after check (the first `k` checks).
pub open spec fn all_check_findings<C: Check>(checks: Seq<C>, file: &SourceFile, k: int) -> Seq<FindingView>
    decreases k,
{
    if k <= 0 || k > checks.len() {
        Seq::empty()
    } else {
        all_check_findings(checks, file, k - 1) + checks[k - 1].findings_spec(file)
    }
}

/// The finding, reported for the file `label`.
pub open spec fn relabel(f: FindingView, label: Seq<char>) -> FindingView {
    FindingView {
        check_name: f.check_name,
        severity: f.severity,
        file_path: label,
        line: f.line,
        function_name: f.function_name,
        description: f.description,
        rule_url: f.rule_url,
        suggestion: f.suggestion,
    }
}

pub open spec fn with_file_path(s: Seq<FindingView>, label: Seq<char>) -> Seq<FindingView> {
    s.map_values(|f: FindingView| relabel(f, label))
}

/// The findings that no suppression covers, in order.
pub open spec fn unsuppressed(
    s: Seq<FindingView>,
    lc: Seq<(usize, Seq<char>)>,
    fc: Seq<(Seq<char>, Seq<char>, Seq<char>)>,
    spans: Seq<FnSpanView>,
) -> Seq<FindingView>
    decreases s.len(),
{
    if s.len() == 0 {
        s
    } else {
        let r = unsuppressed(s.drop_last(), lc, fc, spans);
        if suppressed_spec(s.last(), lc, fc, spans) {
            r
        } else {
            r.push(s.last())
        }
    }
}

/// The findings of all files, file after file.
pub open spec fn concat_findings(per_file: Seq<Seq<FindingView>>, k: int) -> Seq<FindingView>
    decreases k,
{
    if k <= 0 || k > per_file.len() {
        Seq::empty()
    } else {
        concat_findings(per_file, k - 1) + per_file[k - 1]
    }
}

pub open spec fn per_file_view(v: Seq<Vec<Finding>>) -> Seq<Seq<FindingView>> {
    v.map_values(|x: Vec<Finding>| findings_view(x@))
}

/// What one file reports for the raw findings `raw` (check after check): each finding
/// reported for `label`, the suppressed ones dropped, the rest ordered by line (stably)
/// and without repeated keys.
pub open spec fn finalize_spec(raw: Seq<FindingView>, file: &SourceFile, source: Seq<char>, label: Seq<char>) -> Seq<FindingView> {
    let spans = fn_spans_spec(file);
    let lines = lines_spec(source);
    let sup = suppressions_spec(lines, spans, lines.len() as int);
    dedup_spec(sort_findings_spec(unsuppressed(with_file_path(raw, label), sup.0, sup.1, spans), false))
}

/// One file's findings: every check's findings, reported for `label`, minus the suppressed
/// ones, ordered by line (stably) and without repeated keys.
pub open spec fn file_findings_spec<C: Check>(checks: Seq<C>, file: &SourceFile, source: Seq<char>, label: Seq<char>) -> Seq<FindingView> {
    finalize_spec(all_check_findings(checks, file, checks.len() as int), file, source, label)
}

/// Turns the checks' findings for one parsed file (one list per check, in check order)
/// into what the file reports; `source` is the file's text and `file_label` its path
/// relative to the scan root.
pub fn finalize_file_findings(per_check: &Vec<Vec<Finding>>, file: &SourceFile, source: &str, file_label: &str) -> (r: Vec<Finding>)
    ensures
        findings_view(r@) == finalize_spec(
            concat_findings(per_file_view(per_check@), per_check@.len() as int),
            file,
            source@,
            file_label@,
        ),
{
    let spans = build_fn_spans(file);
    let sup = parse_suppressions(source, &spans);
    let ghost sv = spans_view(spans@);
    let ghost lc = line_entries(sup.line_checks@);
    let ghost fc = fn_entries(sup.function_checks@);
    let ghost label = file_label@;
    let ghost pv = per_file_view(per_check@);
    let mut kept: Vec<Finding> = Vec::new();
    let mut i: usize = 0;
    while i < per_check.len()
        invariant
            0 <= i <= per_check.len(),
            pv == per_file_view(per_check@),
            sv == spans_view(spans@),
            lc == line_entries(sup.line_checks@),
            fc == fn_entries(sup.function_checks@),
            label == file_label@,
            findings_view(kept@) == unsuppressed(with_file_path(concat_findings(pv, i as int), label), lc, fc, sv),
        decreases per_check.len() - i,
    {
        let hits = &per_check[i];
        let ghost base = concat_findings(pv, i as int);
        let ghost hv = findings_view(hits@);
        assert(pv[i as int] == hv);
        let mut j: usize = 0;
        while j < hits.len()
            invariant
                0 <= j <= hits.len(),
                hv == findings_view(hits@),
                sv == spans_view(spans@),
                lc == line_entries(sup.line_checks@),
                fc == fn_entries(sup.function_checks@),
                label == file_label@,
                findings_view(kept@) == unsuppressed(with_file_path(base + hv.take(j as int), label), lc, fc, sv),
            decreases hits.len() - j,
        {
            let mut f = hits[j].duplicate();
            f.file_path = String::from_str(file_label);
            let ghost pre = with_file_path(base + hv.take(j as int), label);
            assert(base + hv.take(j + 1) =~= (base + hv.take(j as int)).push(hv[j as int]));
            assert(with_file_path(base + hv.take(j + 1), label) =~= pre.push(relabel(hv[j as int], label)));
            assert(hv[j as int] == hits@[j as int]@);
            assert(f@ == relabel(hv[j as int], label));
            assert(pre.push(f@).drop_last() =~= pre);
            if !is_suppressed(&f, &sup, &spans) {
                let ghost prev = kept@;
                kept.push(f);
                proof {
                    crate::finding::lemma_findings_view_push(prev, kept@.last());
                }
            }
            j += 1;
        }
        assert(hv.take(j as int) =~= hv);
        i += 1;
    }
    let sorted = sort_findings(&kept, false);
    dedup_findings(&sorted)
}

/// Runs every check on one parsed file whose text is `source` and whose path relative to
/// the scan root is `file_label`.
pub fn run_checks_for_file<C: Check>(file: &SourceFile, source: &str, file_label: &str, checks: &Vec<C>) -> (r: Vec<Finding>)
    ensures
        findings_view(r@) == file_findings_spec(checks@, file, source@, file_label@),
{
    let mut per_check: Vec<Vec<Finding>> = Vec::new();
    let mut i: usize = 0;
    while i < checks.len()
        invariant
            0 <= i <= checks.len(),
            per_check@.len() == i,
            concat_findings(per_file_view(per_check@), i as int) == all_check_findings(checks@, file, i as int),
        decreases checks.len() - i,
    {
        let hits = checks[i].run(file, source);
        let ghost prev = per_check@;
        per_check.push(hits);
        proof {
            let pv = per_file_view(per_check@);
            assert(per_file_view(prev) =~= pv.take(i as int));
            lemma_concat_prefix(pv, i as int);
            assert(pv[i as int] == checks@[i as int].findings_spec(file));
        }
        i += 1;
    }
    finalize_file_findings(&per_check, file, source, file_label)
}

proof fn lemma_concat_prefix(s: Seq<Seq<FindingView>>, k: int)
    requires
        0 <= k <= s.len(),
    ensures
        concat_findings(s, k) == concat_findings(s.take(k), k),
    decreases k,
{
    if k > 0 {
        lemma_concat_prefix(s, k - 1);
        lemma_concat_prefix(s.take(k), k - 1);
        assert(s.take(k).take(k - 1) =~= s.take(k - 1));
    }
}

fn flatten(per_file: &Vec<Vec<Finding>>) -> (r: Vec<Finding>)
    ensures
        findings_view(r@) == concat_findings(per_file_view(per_file@), per_file@.len() as int),
{
    let ghost pv = per_file_view(per_file@);
    let mut out: Vec<Finding> = Vec::new();
    let mut i: usize = 0;
    while i < per_file.len()
        invariant
            0 <= i <= per_file.len(),
            pv == per_file_view(per_file@),
            findings_view(out@) == concat_findings(pv, i as int),
        decreases per_file.len() - i,
    {
        let ghost base = findings_view(out@);
        let ghost fv = findings_view(per_file@[i as int]@);
        let mut j: usize = 0;
        while j < per_file[i].len()
            invariant
                0 <= j <= per_file@[i as int]@.len(),
                i < per_file@.len(),
                fv == findings_view(per_file@[i as int]@),
                findings_view(out@) == base + fv.take(j as int),
            decreases per_file@[i as int]@.len() - j,
        {
            let ghost prev = out@;
            out.push(per_file[i][j].duplicate());
            proof {
                crate::finding::lemma_findings_view_push(prev, out@.last());
            }
            assert(base + fv.take(j + 1) =~= (base + fv.take(j as int)).push(fv[j as int]));
            j += 1;
        }
        assert(fv.take(j as int) =~= fv);
        assert(pv[i as int] == fv);
        i += 1;
    }
    out
}

/// A directory scan's findings: the files' findings in file order, sorted (stably) by file
/// path and line, without repeated keys.
pub fn merge_directory_findings(per_file: &Vec<Vec<Finding>>) -> (r: Vec<Finding>)
    ensures
        findings_view(r@) == dedup_spec(
            sort_findings_spec(concat_findings(per_file_view(per_file@), per_file@.len() as int), true),
        ),
{
    let all = flatten(per_file);
    let sorted = sort_findings(&all, true);
    dedup_findings(&sorted)
}

/// The findings of a scan over listed files: sorted (stably) by file path and line, repeats
/// kept.
pub fn merge_listed_findings(per_file: &Vec<Vec<Finding>>) -> (r: Vec<Finding>)
    ensures
        findings_view(r@) == sort_findings_spec(concat_findings(per_file_view(per_file@), per_file@.len() as int), true),
{
    let all = flatten(per_file);
    sort_findings(&all, true)
}

/// Findings for a single source file.
pub struct FileScanResult {
    pub file_path: String,
    pub findings: Vec<Finding>,
}

/// A file's result as its path and its findings.
pub open spec fn result_view(r: FileScanResult) -> (Seq<char>, Seq<FindingView>) {
    (r.file_path@, findings_view(r.findings@))
}

pub open spec fn results_view(s: Seq<FileScanResult>) -> Seq<(Seq<char>, Seq<FindingView>)> {
    s.map_values(|r: FileScanResult| result_view(r))
}

/// How many leading results of `t` have a path sorting no later than `x`'s.
pub open spec fn leading_path_le(t: Seq<(Seq<char>, Seq<FindingView>)>, x: (Seq<char>, Seq<FindingView>)) -> nat
    decreases t.len(),
{
    if t.len() > 0 && text_le(t[0].0, x.0) {
        1 + leading_path_le(t.drop_first(), x)
    } else {
        0
    }
}

/// The results ordered by file path (a stable insertion sort).
pub open spec fn sort_results_spec(s: Seq<(Seq<char>, Seq<FindingView>)>) -> Seq<(Seq<char>, Seq<FindingView>)>
    decreases s.len(),
{
    if s.len() == 0 {
        s
    } else {
        let t = sort_results_spec(s.drop_last());
        t.insert(leading_path_le(t, s.last()) as int, s.last())
    }
}

proof fn lemma_leading_path_le_bound(t: Seq<(Seq<char>, Seq<FindingView>)>, x: (Seq<char>, Seq<FindingView>))
    ensures
        leading_path_le(t, x) <= t.len(),
        forall|j: int| 0 <= j < leading_path_le(t, x) ==> text_le(#[trigger] t[j].0, x.0),
        leading_path_le(t, x) < t.len() ==> !text_le(t[leading_path_le(t, x) as int].0, x.0),
    decreases t.len(),
{
    if t.len() > 0 && text_le(t[0].0, x.0) {
        lemma_leading_path_le_bound(t.drop_first(), x);
        assert forall|j: int| 0 <= j < leading_path_le(t, x) implies text_le(#[trigger] t[j].0, x.0) by {
            if j > 0 {
                assert(t[j] == t.drop_first()[j - 1]);
            }
        }
    }
}

/// The per-file results ordered by file path.
pub fn sort_file_results(results: Vec<FileScanResult>) -> (r: Vec<FileScanResult>)
    ensures
        results_view(r@) == sort_results_spec(results_view(results@)),
{
    let ghost all = results_view(results@);
    let mut rest = results;
    let mut out: Vec<FileScanResult> = Vec::new();
    let ghost mut done: int = 0;
    while rest.len() > 0
        invariant
            0 <= done <= all.len(),
            done + rest@.len() == all.len(),
            results_view(rest@) == all.skip(done),
            results_view(out@) == sort_results_spec(all.take(done)),
        decreases rest.len(),
    {
        let ghost before = rest@;
        let x = rest.remove(0);
        assert(results_view(before)[0] == result_view(x));
        assert(rest@ =~= before.subrange(1, before.len() as int));
        assert forall|j: int| 0 <= j < rest@.len() implies #[trigger] results_view(rest@)[j] == all.skip(done + 1)[j] by {
            assert(results_view(before)[j + 1] == all.skip(done)[j + 1]);
            assert(rest@[j] == before[j + 1]);
        }
        assert(results_view(rest@) =~= all.skip(done + 1));
        assert(all.take(done + 1).drop_last() =~= all.take(done));
        assert(all.take(done + 1).last() == result_view(x));
        let ghost ov = results_view(out@);
        proof {
            lemma_leading_path_le_bound(ov, result_view(x));
        }
        let mut k: usize = 0;
        while k < out.len() && text_le_exec(out[k].file_path.as_str(), x.file_path.as_str())
            invariant
                0 <= k <= out.len(),
                ov == results_view(out@),
                k <= leading_path_le(ov, result_view(x)),
                leading_path_le(ov, result_view(x)) <= ov.len(),
                forall|j: int| 0 <= j < leading_path_le(ov, result_view(x)) ==> text_le(#[trigger] ov[j].0, x.file_path@),
                leading_path_le(ov, result_view(x)) < ov.len() ==> !text_le(
                    ov[leading_path_le(ov, result_view(x)) as int].0,
                    x.file_path@,
                ),
            decreases out.len() - k,
        {
            assert(ov[k as int] == result_view(out@[k as int]));
            k += 1;
        }
        proof {
            let ln = leading_path_le(ov, result_view(x));
            if k < out.len() {
                assert(ov[k as int] == result_view(out@[k as int]));
                assert(!text_le(ov[k as int].0, x.file_path@));
                if k < ln {
                    assert(text_le(ov[k as int].0, x.file_path@));
                }
            }
        }
        assert(k == leading_path_le(ov, result_view(x)));
        let ghost xv = result_view(x);
        out.insert(k, x);
        assert(results_view(out@) =~= ov.insert(k as int, xv));
        proof {
            done = done + 1;
        }
    }
    assert(all.take(done) =~= all);
    out
}



/// The path a file's findings are reported under: its file name when the scan root is the
/// file itself (empty if it has none), else its path relative to the root, or its full
/// path when it does not lie under the root.
pub open spec fn file_label_spec(
    root_is_file: bool,
    file_name: Option<Seq<char>>,
    relative: Option<Seq<char>>,
    full: Seq<char>,
) -> Seq<char> {
    if root_is_file {
        match file_name {
            Some(n) => n,
            None => Seq::empty(),
        }
    } else {
        match relative {
            Some(r) => r,
            None => full,
        }
    }
}

/// The label of a scanned file.
pub fn file_label(root_is_file: bool, file_name: &Option<String>, relative: &Option<String>, full: &String) -> (r: String)
    ensures
        r@ == file_label_spec(
            root_is_file,
            crate::finding::opt_text(*file_name),
            crate::finding::opt_text(*relative),
            full@,
        ),
{
    if root_is_file {
        match file_name {
            Some(n) => n.clone(),
            None => String::new(),
        }
    } else {
        match relative {
            Some(r) => r.clone(),
            None => full.clone(),
        }
    }
}

} // verus!
