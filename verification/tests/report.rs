//! The command-line tool's texts and decisions, the calendar helpers and the example
//! contract.

use soroban_guard::checks::default_checks;
use soroban_guard::contract::{Env, VulnerableContract};
use soroban_guard::dates::{days_to_ymd, is_leap, timestamp_from_secs};
use soroban_guard::finding::{Check, Finding, Severity};
use soroban_guard::options::{
    effective_fail_on, fail_threshold, first_unknown_check, formats_conflict, is_relevant_change, join_names,
    merge_disabled, should_fail, should_print_results, unknown_check_message, ChangeKind,
};
use soroban_guard::report::{
    build_sarif, count_severity, describe_check, describe_rule, explain_details, explain_text, hyperlink,
    json_summary, list_line, markdown_report, severity_to_sarif_level, summary_text, truncate,
};
use soroban_guard::text::decimal_string;

fn sample(check_name: &str, severity: Severity, line: usize, function: &str, description: &str) -> Finding {
    Finding {
        check_name: check_name.to_string(),
        severity,
        file_path: "src/lib.rs".to_string(),
        line,
        function_name: function.to_string(),
        description: description.to_string(),
        rule_url: None,
        suggestion: None,
    }
}

fn strings(v: &[&str]) -> Vec<String> {
    v.iter().map(|s| s.to_string()).collect()
}

#[test]
fn sarif_payload_has_expected_schema_and_result() {
    let findings = vec![sample("missing-require-auth", Severity::High, 10, "set_balance", "Missing auth")];

    let payload = build_sarif(&findings);
    assert_eq!(payload.version, "2.1.0");
    assert_eq!(payload.tool_name, "soroban-guard");
    assert_eq!(payload.results[0].rule_id, "missing-require-auth");
}

#[test]
fn sarif_rules_once_per_check_in_first_seen_order() {
    let findings = vec![
        sample("self-transfer", Severity::Medium, 1, "a", "x"),
        sample("unchecked-divisor", Severity::High, 2, "b", "y"),
        sample("self-transfer", Severity::Low, 3, "c", "z"),
    ];
    let log = build_sarif(&findings);
    let ids: Vec<&str> = log.rules.iter().map(|r| r.id.as_str()).collect();
    assert_eq!(ids, vec!["self-transfer", "unchecked-divisor"]);
    assert_eq!(log.rules[0].level, "warning");
    assert_eq!(log.rules[0].description, "Token transfer destination may equal the sender");
    assert_eq!(log.results.len(), 3);
    assert_eq!(log.results[2].level, "note");
    assert_eq!(log.results[1].start_line, 2);
    assert_eq!(log.results[0].uri, "src/lib.rs");
    assert_eq!(log.results[0].message, "x");
}

#[test]
fn json_payload_includes_summary_keys() {
    let findings = vec![
        sample("missing-require-auth", Severity::High, 10, "set_balance", "Missing auth"),
        sample("unchecked-arithmetic", Severity::Medium, 20, "update", "Unchecked arithmetic"),
    ];

    let summary = json_summary(&findings, 3);
    assert_eq!(summary.total, 2);
    assert_eq!(summary.high, 1);
    assert_eq!(summary.medium, 1);
    assert_eq!(summary.low, 0);
    assert_eq!(summary.files_scanned, 3);
}

#[test]
fn summary_includes_severity_counts_and_files_scanned() {
    let findings = vec![
        sample("high-check", Severity::High, 1, "high", "High finding"),
        sample("medium-check", Severity::Medium, 2, "medium", "Medium finding"),
    ];

    assert_eq!(summary_text(&findings, 6), "1 High, 1 Medium, 0 Low — across 6 file(s)");
}

#[test]
fn describe_check_covers_all_default_checks() {
    for check in default_checks() {
        let (sev, desc) = describe_check(check.name());
        assert_ne!(sev, "low", "check {} has fallback severity", check.name());
        assert_ne!(desc, "Custom detector", "check {} has fallback description", check.name());
    }
}

#[test]
fn describe_rule_covers_all_default_checks() {
    for check in default_checks() {
        let desc = describe_rule(check.name());
        assert_ne!(desc, "Custom check", "check {} has fallback rule description", check.name());
    }
}

#[test]
fn descriptions_of_known_and_unknown_checks() {
    assert_eq!(describe_check("unchecked-divisor"), ("high", "Flags division by runtime values without zero guards"));
    assert_eq!(describe_check("my-check"), ("low", "Custom detector"));
    assert_eq!(describe_rule("my-check"), "Custom check");
    assert_eq!(explain_details("my-check"), "No detailed explanation is available for this custom check.");
    assert_eq!(
        explain_details("self-transfer"),
        "Reports transfer-like functions that do not guard against sender and recipient being equal."
    );
    assert_eq!(list_line("self-transfer"), "self-transfer | medium | Flags token transfers where sender may equal receiver");
    assert_eq!(
        explain_text("unchecked-divisor"),
        "Name:      unchecked-divisor\nSeverity:  HIGH\nSummary:   Flags division by runtime values without zero guards\nDetails:\n  Reports division by runtime values without an apparent non-zero guard.\n"
    );
}

#[test]
fn sarif_levels() {
    assert_eq!(severity_to_sarif_level(Severity::High), "error");
    assert_eq!(severity_to_sarif_level(Severity::Medium), "warning");
    assert_eq!(severity_to_sarif_level(Severity::Low), "note");
}

#[test]
fn markdown_report_table_and_counts() {
    assert_eq!(markdown_report(&[]), "## Soroban Guard Findings\n\nNo issues found.\n");
    let findings = vec![
        sample("self-transfer", Severity::Medium, 12, "transfer", "d"),
        sample("unprotected-admin", Severity::High, 30, "set_owner", "d"),
    ];
    let expected = "## Soroban Guard Findings\n\n\
| # | Severity | File | Line | Check | Function |\n\
|---|----------|------|------|-------|----------|\n\
| 1 | MEDIUM | src/lib.rs | 12 | self-transfer | transfer |\n\
| 2 | **HIGH** | src/lib.rs | 30 | unprotected-admin | set_owner |\n\
\n**2 finding(s): 1 High, 1 Medium, 0 Low**\n";
    assert_eq!(markdown_report(&findings), expected);
}

#[test]
fn counts_by_severity() {
    let findings = vec![
        sample("a", Severity::Low, 1, "f", "d"),
        sample("b", Severity::Low, 2, "f", "d"),
        sample("c", Severity::High, 3, "f", "d"),
    ];
    assert_eq!(count_severity(&findings, Severity::Low), 2);
    assert_eq!(count_severity(&findings, Severity::High), 1);
    assert_eq!(count_severity(&findings, Severity::Medium), 0);
}

#[test]
fn truncation_keeps_a_prefix() {
    let findings = vec![
        sample("a", Severity::Low, 1, "f", "d"),
        sample("b", Severity::Low, 2, "f", "d"),
        sample("c", Severity::High, 3, "f", "d"),
    ];
    let (shown, rest) = truncate(&findings, 0);
    assert_eq!((shown.len(), rest), (3, 0));
    let (shown, rest) = truncate(&findings, 2);
    assert_eq!((shown.len(), rest), (2, 1));
    assert_eq!(shown[1].check_name, "b");
    let (shown, rest) = truncate(&findings, 5);
    assert_eq!((shown.len(), rest), (3, 0));
}

#[test]
fn hyperlinks_only_when_enabled() {
    assert_eq!(hyperlink("https://x.y/z", "docs", false), "docs");
    assert_eq!(hyperlink("https://x.y/z", "docs", true), "\x1b]8;;https://x.y/z\x1b\\docs\x1b]8;;\x1b\\");
}

#[test]
fn decimal_texts() {
    assert_eq!(decimal_string(0), "0");
    assert_eq!(decimal_string(7), "7");
    assert_eq!(decimal_string(1234567890), "1234567890");
}

#[test]
fn leap_years() {
    assert!(is_leap(2000));
    assert!(is_leap(2024));
    assert!(!is_leap(1900));
    assert!(!is_leap(2023));
}

#[test]
fn days_to_dates() {
    assert_eq!(days_to_ymd(0), (1970, 1, 1));
    assert_eq!(days_to_ymd(31), (1970, 2, 1));
    assert_eq!(days_to_ymd(365), (1971, 1, 1));
    assert_eq!(days_to_ymd(789), (1972, 2, 29));
    assert_eq!(days_to_ymd(10957), (2000, 1, 1));
    assert_eq!(days_to_ymd(19723), (2024, 1, 1));
    assert_eq!(days_to_ymd(20662), (2026, 7, 28));
}

#[test]
fn timestamps() {
    assert_eq!(timestamp_from_secs(0), "1970-01-01 00:00:00");
    assert_eq!(timestamp_from_secs(1_785_280_176), "2026-07-28 23:09:36");
    assert_eq!(timestamp_from_secs(951_782_400), "2000-02-29 00:00:00");
}

#[test]
fn fail_threshold_names() {
    assert_eq!(fail_threshold("medium"), Severity::Medium);
    assert_eq!(fail_threshold("LOW"), Severity::Low);
    assert_eq!(fail_threshold("High"), Severity::High);
    assert_eq!(fail_threshold("anything"), Severity::High);
    assert_eq!(effective_fail_on("low", &Some("medium".to_string())), "low");
    assert_eq!(effective_fail_on("high", &Some("medium".to_string())), "medium");
    assert_eq!(effective_fail_on("high", &None), "high");
}

#[test]
fn failing_and_reporting() {
    let findings = vec![sample("a", Severity::Medium, 1, "f", "d")];
    assert!(!should_fail(&findings, Severity::High));
    assert!(should_fail(&findings, Severity::Medium));
    assert!(should_fail(&findings, Severity::Low));
    assert!(!should_fail(&[], Severity::Low));
    assert!(should_print_results(false, false));
    assert!(!should_print_results(true, false));
    assert!(should_print_results(true, true));
}

#[test]
fn output_formats_exclude_each_other() {
    assert!(!formats_conflict(false, false, false));
    assert!(!formats_conflict(true, false, false));
    assert!(formats_conflict(true, true, false));
    assert!(formats_conflict(true, true, true));
}

#[test]
fn disabled_checks_merge_and_validation() {
    let merged = merge_disabled(&strings(&["self-transfer"]), &strings(&["unchecked-divisor", "self-transfer", "unchecked-divisor"]));
    assert_eq!(merged, strings(&["self-transfer", "unchecked-divisor"]));
    let checks = default_checks();
    assert_eq!(first_unknown_check(&merged, &checks), None);
    assert_eq!(
        first_unknown_check(&strings(&["self-transfer", "nope", "also-nope"]), &checks),
        Some("nope".to_string())
    );
    assert_eq!(join_names(&merged, ", "), "self-transfer, unchecked-divisor");
    assert_eq!(join_names(&Vec::new(), ", "), "");
    assert_eq!(
        unknown_check_message("nope"),
        "unknown check `nope`. Run `soroban-guard list-checks` to see available checks."
    );
}

#[test]
fn bump_increments_the_stored_counter() {
    let mut env = Env::new();
    VulnerableContract::bump(&mut env);
    assert_eq!(env.get(), Some(1));
    VulnerableContract::bump(&mut env);
    assert_eq!(env.get(), Some(2));
    let mut env = Env::with_counter(41);
    VulnerableContract::bump(&mut env);
    assert_eq!(env.get(), Some(42));
}

#[test]
fn quiet_still_prints_when_low_finding_meets_fail_on_low() {
    let findings = vec![sample("a", Severity::Low, 1, "f", "d")];
    let threshold = fail_threshold("low");
    let failing = should_fail(&findings, threshold);
    assert!(failing);
    assert!(should_print_results(true, failing));
    assert!(!should_print_results(true, should_fail(&findings, fail_threshold("high"))));
}

fn plain(lines: &[Vec<soroban_guard::pretty::Piece>]) -> Vec<String> {
    lines.iter().map(|l| l.iter().map(|p| p.text.as_str()).collect::<String>()).collect()
}

#[test]
fn pretty_report_without_findings() {
    let lines = soroban_guard::pretty::pretty_lines(&[], 3, "contracts", 0, false);
    assert_eq!(
        plain(&lines),
        vec![
            "",
            "Soroban Guard Core (scan: contracts)",
            "",
            "  No issues found.",
            "",
            "  0 High, 0 Medium, 0 Low — across 3 file(s)",
            "",
        ]
    );
    assert_eq!(lines[3][1].style, soroban_guard::pretty::Style::Green);
}

#[test]
fn pretty_report_lists_findings_and_truncation() {
    let mut f = sample("self-transfer", Severity::High, 12, "transfer", "Missing guard");
    f.suggestion = Some("Compare from and to".to_string());
    f.rule_url = Some("https://x.y/z".to_string());
    let lines = soroban_guard::pretty::pretty_lines(&[f], 1, ".", 2, false);
    assert_eq!(
        plain(&lines),
        vec![
            "",
            "Soroban Guard Core (scan: .)",
            "",
            "  3 finding(s):",
            "",
            "  [1]  HIGH  src/lib.rs:12  self-transfer",
            "         function: `transfer`",
            "         Missing guard",
            "         suggestion: Compare from and to",
            "         docs: https://x.y/z",
            "",
            "  ... (truncated — 2 more finding(s) not shown, use --max-findings 0 for all)",
            "",
            "  1 High, 0 Medium, 0 Low — across 1 file(s)",
            "",
        ]
    );
    assert_eq!(lines[5][3].style, soroban_guard::pretty::Style::RedBold);
    assert_eq!(lines[5][7].style, soroban_guard::pretty::Style::Red);
}

#[test]
fn watch_rescans_on_created_or_modified_rust_files() {
    let rs = vec![Some("toml".to_string()), Some("rs".to_string())];
    assert!(is_relevant_change(ChangeKind::Create, &rs));
    assert!(is_relevant_change(ChangeKind::Modify, &rs));
    assert!(!is_relevant_change(ChangeKind::Other, &rs));
    assert!(!is_relevant_change(ChangeKind::Modify, &vec![Some("RS".to_string()), None]));
    assert!(!is_relevant_change(ChangeKind::Create, &Vec::new()));
}
