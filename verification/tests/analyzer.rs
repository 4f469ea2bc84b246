//! The scan pipeline: file selection, per-file processing, merging and errors.

use soroban_guard::analyzer::{
    compile_globs, dedup_findings, file_label, has_generated_header, is_rust_source_candidate, merge_directory_findings,
    merge_listed_findings, path_selected, finalize_file_findings, sort_file_results, sort_findings, text_le_exec,
    FileScanResult, ScanError,
};
use soroban_guard::finding::{Finding, Severity};
use soroban_guard::syntax::{Block, Item, SourceFile};

/// The model of `pub fn f() {}`.
fn one_fn_file() -> SourceFile {
    SourceFile { items: vec![Item::Fn { block: Block { stmts: Vec::new(), end_line: 1 } }] }
}

fn finding(check: &str, severity: Severity, path: &str, line: usize, function: &str, description: &str) -> Finding {
    Finding {
        check_name: check.to_string(),
        severity,
        file_path: path.to_string(),
        line,
        function_name: function.to_string(),
        description: description.to_string(),
        rule_url: None,
        suggestion: None,
    }
}

fn strings(v: &[&str]) -> Vec<String> {
    v.iter().map(|s| s.to_string()).collect()
}

/// Whether the scan takes the file at `rel` (relative to the root `/root`).
fn scanned(rel: &str, excludes: &[&str], includes: &[&str]) -> bool {
    let full = format!("/root/{rel}");
    let components: Vec<String> = full.split('/').filter(|c| !c.is_empty()).map(|c| c.to_string()).collect();
    let extension = rel.rsplit_once('.').map(|(_, e)| e.to_string());
    if !is_rust_source_candidate(&components, &extension) {
        return false;
    }
    let ex = compile_globs(&strings(excludes)).ok().unwrap();
    let inc = compile_globs(&strings(includes)).ok().unwrap();
    path_selected(&ex, &inc, rel, &full)
}

/// `(files_scanned, files_skipped)` for a tree under `/root` given as `(relative path,
/// contents)`: the selection and the generated-file header test are the library's, the
/// header being read from a file's first five lines.
fn scan_counts(files: &[(&str, &str)], excludes: &[&str], includes: &[&str]) -> (usize, usize) {
    let mut files_scanned = 0;
    let mut files_skipped = 0;
    for (rel, contents) in files {
        if !scanned(rel, excludes, includes) {
            continue;
        }
        let first_lines: Vec<String> = contents.split_inclusive('\n').take(5).map(|l| l.to_string()).collect();
        if has_generated_header(&first_lines) {
            files_skipped += 1;
        } else {
            files_scanned += 1;
        }
    }
    (files_scanned, files_skipped)
}

/// What a check reports that returns two identical findings for every file it sees.
fn duplicating_check() -> Vec<Finding> {
    let f = finding("dup-check", Severity::Low, "", 1, "f", "duplicate");
    vec![f.clone(), f]
}

/// What a check reports that returns two findings at different lines, reversed.
fn reversed_check() -> Vec<Finding> {
    vec![
        finding("reversed-check", Severity::Low, "", 20, "b", "second"),
        finding("reversed-check", Severity::Low, "", 5, "a", "first"),
    ]
}

/// What a check reports that finds two findings on the same line that differ only in
/// their description.
fn distinct_same_line_check() -> Vec<Finding> {
    vec![
        finding("distinct-same-line", Severity::Medium, "", 3, "f", "addition may overflow"),
        finding("distinct-same-line", Severity::Medium, "", 3, "f", "multiplication may overflow"),
    ]
}

#[test]
fn scan_error_check_panic_format() {
    let err = ScanError::CheckPanic {
        check: "example-check".to_string(),
        path: "src/lib.rs".to_string(),
        message: "unexpected AST shape".to_string(),
    };

    assert_eq!(err.message(), "Check `example-check` panicked on src/lib.rs: unexpected AST shape");
}

#[test]
fn scan_error_texts() {
    assert_eq!(ScanError::Io { message: "denied".to_string() }.message(), "IO error: denied");
    assert_eq!(
        ScanError::PermissionDenied { path: "a.rs".to_string() }.message(),
        "Permission denied reading a.rs"
    );
    assert_eq!(
        ScanError::Parse { path: "a.rs".to_string(), message: "expected `;`".to_string() }.message(),
        "Failed to parse a.rs: expected `;`"
    );
}

#[test]
fn reports_scanned_rust_file_count_after_filters() {
    let files = [
        ("src/lib.rs", "pub fn included() {}"),
        ("src/excluded.rs", "pub fn excluded() {}"),
        ("target/generated.rs", "pub fn generated() {}"),
        ("README.md", "not Rust"),
    ];
    let (files_scanned, files_skipped) = scan_counts(&files, &["src/excluded.rs"], &[]);
    assert_eq!(files_scanned, 1);
    assert_eq!(files_skipped, 0);
}

#[test]
fn include_filter_limits_scanned_files() {
    let files = [("src/lib.rs", "pub fn a() {}"), ("src/other.rs", "pub fn b() {}")];
    let (files_scanned, files_skipped) = scan_counts(&files, &[], &["src/lib.rs"]);
    assert_eq!(files_scanned, 1);
    assert_eq!(files_skipped, 0);
}

#[test]
fn exclude_wins_over_include() {
    assert!(!scanned("src/lib.rs", &["src/*.rs"], &["src/lib.rs"]));
    assert!(scanned("src/lib.rs", &["vendor/**"], &["src/*.rs"]));
}

#[test]
fn skips_generated_files_with_header() {
    let files = [("src/lib.rs", "// @generated\npub fn generated() {}\n")];
    let (files_scanned, files_skipped) = scan_counts(&files, &[], &[]);
    assert_eq!(files_scanned, 0);
    assert_eq!(files_skipped, 1);

    let header = strings(&["// @generated\n", "pub fn generated() {}\n"]);
    assert!(has_generated_header(&header));
    assert!(has_generated_header(&strings(&["\n", "   // Code generated by a tool\n"])));
    assert!(has_generated_header(&strings(&["// DO NOT EDIT\n"])));
    assert!(!has_generated_header(&strings(&["pub fn f() {}\n"])));
    assert!(!has_generated_header(&strings(&["a\n", "b\n", "c\n", "d\n", "e\n", "// @generated\n"])));
}

#[test]
fn scan_files_returns_findings_for_explicit_paths() {
    let paths = ["src/lib.rs", "src/other.rs"];
    let no_excludes = compile_globs(&Vec::new()).ok().unwrap();
    let none: Vec<soroban_guard::analyzer::GlobPattern> = Vec::new();
    let kept = paths.iter().filter(|p| path_selected(&no_excludes, &none, p, &format!("/root/{p}"))).count();
    assert_eq!(kept, 2);

    let excludes = compile_globs(&strings(&["src/other.rs"])).ok().unwrap();
    let kept = ["src/other.rs"].iter().filter(|p| path_selected(&excludes, &none, p, &format!("/root/{p}"))).count();
    assert_eq!(kept, 0);
}

#[test]
fn scan_directory_rejects_invalid_exclude_glob() {
    let result = compile_globs(&strings(&["src/[foo.rs"]));
    assert!(result.is_err());
    let err_msg = match result {
        Err(e) => e.message(),
        Ok(_) => unreachable!(),
    };
    assert!(err_msg.contains("Invalid glob pattern") || err_msg.contains("src/[foo.rs"));
}

#[test]
fn scan_directory_rejects_invalid_include_glob() {
    let result = compile_globs(&strings(&["src/[invalid.rs"]));
    assert!(result.is_err());
    let err_msg = match result {
        Err(e) => e.message(),
        Ok(_) => unreachable!(),
    };
    assert!(err_msg.contains("Invalid glob pattern") || err_msg.contains("src/[invalid.rs"));
}

#[test]
fn first_invalid_pattern_is_reported_with_glob_reason() {
    let result = compile_globs(&strings(&["src/*.rs", "src/[invalid.rs", "[also"]));
    let err_msg = match result {
        Err(e) => e.message(),
        Ok(_) => panic!("expected an invalid pattern"),
    };
    assert!(err_msg.starts_with("Invalid glob pattern `src/[invalid.rs`: Pattern syntax error near position "));
}

#[test]
fn deduplicates_findings_with_same_file_line_check() {
    let findings = finalize_file_findings(&vec![duplicating_check()], &one_fn_file(), "pub fn f() {}", "src/lib.rs");
    assert_eq!(findings.len(), 1, "expected 1 finding after dedup, got {}", findings.len());
    assert_eq!(findings[0].file_path, "src/lib.rs");
}

#[test]
fn findings_sorted_by_file_path_then_line() {
    // The files in walk order, which need not be sorted.
    let mut results = Vec::new();
    for label in ["src/b_module.rs", "src/a_module.rs"] {
        let findings = finalize_file_findings(&vec![reversed_check()], &one_fn_file(), "pub fn a() {}", label);
        results.push(FileScanResult { file_path: label.to_string(), findings });
    }
    let results = sort_file_results(results);

    let file_paths: Vec<&str> = results.iter().map(|r| r.file_path.as_str()).collect();
    assert!(file_paths.windows(2).all(|w| w[0] <= w[1]), "files not in sorted order: {:?}", file_paths);
    assert_eq!(file_paths, vec!["src/a_module.rs", "src/b_module.rs"]);

    for r in &results {
        let lines: Vec<usize> = r.findings.iter().map(|f| f.line).collect();
        assert!(lines.windows(2).all(|w| w[0] <= w[1]), "findings in {} not sorted by line: {:?}", r.file_path, lines);
        assert_eq!(lines, vec![5, 20]);
    }
}

#[test]
fn keeps_distinct_findings_on_the_same_line() {
    let findings = finalize_file_findings(&vec![distinct_same_line_check()], &one_fn_file(), "pub fn f() {}", "src/lib.rs");
    let total = findings.len();
    assert_eq!(total, 2, "distinct same-line findings must both survive dedup, got {total}");
}

#[test]
fn directory_merge_sorts_by_path_then_line_and_drops_repeats() {
    let per_file = vec![
        vec![finding("c", Severity::High, "src/z.rs", 3, "f", "d"), finding("c", Severity::High, "src/z.rs", 1, "f", "d")],
        vec![finding("c", Severity::Low, "src/a.rs", 9, "g", "d"), finding("c", Severity::Low, "src/a.rs", 9, "g", "d")],
    ];
    let merged = merge_directory_findings(&per_file);
    let keys: Vec<(String, usize)> = merged.iter().map(|f| (f.file_path.clone(), f.line)).collect();
    assert_eq!(
        keys,
        vec![("src/a.rs".to_string(), 9), ("src/z.rs".to_string(), 1), ("src/z.rs".to_string(), 3)]
    );

    let listed = merge_listed_findings(&per_file);
    assert_eq!(listed.len(), 4);
    assert_eq!(listed[0].file_path, "src/a.rs");
    assert_eq!(listed[3].line, 3);
}

#[test]
fn sort_is_stable_and_dedup_keeps_first() {
    let mut a = finding("c", Severity::High, "x.rs", 2, "f", "same");
    a.suggestion = Some("first".to_string());
    let mut b = finding("c", Severity::High, "x.rs", 2, "f", "same");
    b.suggestion = Some("second".to_string());
    let c = finding("c", Severity::High, "x.rs", 1, "f", "other");
    let sorted = sort_findings(&vec![a, b, c], false);
    assert_eq!(sorted[0].line, 1);
    assert_eq!(sorted[1].suggestion.as_deref(), Some("first"));
    assert_eq!(sorted[2].suggestion.as_deref(), Some("second"));
    let deduped = dedup_findings(&sorted);
    assert_eq!(deduped.len(), 2);
    assert_eq!(deduped[1].suggestion.as_deref(), Some("first"));
}

#[test]
fn text_order_is_by_character() {
    assert!(text_le_exec("src/a.rs", "src/b.rs"));
    assert!(!text_le_exec("src/b.rs", "src/a.rs"));
    assert!(text_le_exec("src", "src/a.rs"));
    assert!(text_le_exec("same", "same"));
    assert!(text_le_exec("Z", "a"));
}

#[test]
fn file_label_is_relative_path_or_file_name() {
    let name = Some("lib.rs".to_string());
    let rel = Some("src/lib.rs".to_string());
    let full = "/work/src/lib.rs".to_string();
    assert_eq!(file_label(false, &name, &rel, &full), "src/lib.rs");
    assert_eq!(file_label(true, &name, &None, &full), "lib.rs");
    assert_eq!(file_label(true, &None, &None, &full), "");
    assert_eq!(file_label(false, &name, &None, &full), "/work/src/lib.rs");
}
