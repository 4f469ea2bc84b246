//! The texts the command-line tool shows: check descriptions and severities, finding
//! counts and summaries, the Markdown report, links, and the data of a SARIF log.
use vstd::prelude::*;
use crate::finding::{findings_view, Finding, FindingView, Severity};
use crate::text::{decimal, decimal_string, str_eq};
use crate::util::{vec_contains_str, views};

verus! {

/// The severity label and one-line description `list-checks` shows for a check name.
pub open spec fn describe_check_spec(name: Seq<char>) -> (Seq<char>, Seq<char>) {
    if name == "missing-require-auth"@ {
        ("high"@, "Missing env.require_auth() before storage writes"@)
    } else if name == "unchecked-arithmetic"@ {
        ("medium"@, "Flags unchecked arithmetic on contract state"@)
    } else if name == "unprotected-admin"@ {
        ("high"@, "Flags privileged entrypoints without auth"@)
    } else if name == "unsafe-storage-patterns"@ {
        ("medium"@, "Flags temporary storage and dynamic Symbol keys"@)
    } else if name == "missing-ttl-extension"@ {
        ("medium"@, "Flags persistent storage entries without TTL extension"@)
    } else if name == "forbidden-std-imports"@ {
        ("high"@, "Flags use of std in no_std Soroban contracts"@)
    } else if name == "hardcoded-address"@ {
        ("medium"@, "Flags hardcoded Stellar address literals"@)
    } else if name == "unsafe-cross-contract-input"@ {
        ("high"@, "Flags unvalidated return values from cross-contract calls"@)
    } else if name == "missing-contract-annotation"@ {
        ("medium"@, "Flags structs missing the #[contract] attribute"@)
    } else if name == "delegate-call-risk"@ {
        ("high"@, "Flags delegate-call patterns that transfer execution control"@)
    } else if name == "integer-division-truncation"@ {
        ("medium"@, "Flags integer division that silently truncates"@)
    } else if name == "missing-event-emission"@ {
        ("medium"@, "Flags state-mutating functions with no event emission"@)
    } else if name == "symbol-key-collision"@ {
        ("medium"@, "Flags storage keys that share the same Symbol value"@)
    } else if name == "self-transfer"@ {
        ("medium"@, "Flags token transfers where sender may equal receiver"@)
    } else if name == "missing-zero-address-check"@ {
        ("medium"@, "Flags Address parameters not checked for the zero address"@)
    } else if name == "mutable-global-state"@ {
        ("high"@, "Flags mutable global state in contract code"@)
    } else if name == "re-initialization-risk"@ {
        ("high"@, "Flags initializer-like functions without re-init guards"@)
    } else if name == "unchecked-invoke-return"@ {
        ("medium"@, "Flags discarded cross-contract call return values"@)
    } else if name == "missing-balance-check"@ {
        ("high"@, "Flags token transfers without balance or authorization checks"@)
    } else if name == "unbounded-vec-growth"@ {
        ("medium"@, "Flags storage-backed Vec growth without a length cap"@)
    } else if name == "unsafe-randomness"@ {
        ("high"@, "Flags ledger timestamp or sequence as randomness"@)
    } else if name == "unchecked-divisor"@ {
        ("high"@, "Flags division by runtime values without zero guards"@)
    } else if name == "reentrancy-risk"@ {
        ("high"@, "Flags storage writes followed by cross-contract calls"@)
    } else if name == "panic-in-contract"@ {
        ("medium"@, "Flags panic!, unwrap, and expect in contract methods"@)
    } else if name == "unprotected-upgrade"@ {
        ("high"@, "Flags upgrade entrypoints without authorization"@)
    } else if name == "unprotected-token-mint"@ {
        ("high"@, "Flags token mint entrypoints without authorization"@)
    } else if name == "unprotected-contract-deployment"@ {
        ("high"@, "Flags contract deployment calls without authorization"@)
    } else if name == "unchecked-token-amount"@ {
        ("medium"@, "Flags token amounts used without validation"@)
    } else if name == "large-loop"@ {
        ("medium"@, "Flags loops over unbounded collections"@)
    } else if name == "missing-nonce"@ {
        ("medium"@, "Flags functions susceptible to replay attacks"@)
    } else if name == "uninitialized-storage-read"@ {
        ("high"@, "Flags storage reads without initialization checks"@)
    } else if name == "missing-event-for-admin-change"@ {
        ("medium"@, "Flags admin changes with no event emission"@)
    } else if name == "missing-input-length-bound"@ {
        ("medium"@, "Flags input collections without length bound checks"@)
    } else if name == "auth-after-storage-write"@ {
        ("high"@, "Flags authorization checks after storage writes"@)
    } else {
        ("low"@, "Custom detector"@)
    }
}

/// The severity label and description of a check.
pub fn describe_check(name: &str) -> (r: (&'static str, &'static str))
    ensures
        (r.0@, r.1@) == describe_check_spec(name@),
{
    if str_eq(name, "missing-require-auth") {
        ("high", "Missing env.require_auth() before storage writes")
    } else if str_eq(name, "unchecked-arithmetic") {
        ("medium", "Flags unchecked arithmetic on contract state")
    } else if str_eq(name, "unprotected-admin") {
        ("high", "Flags privileged entrypoints without auth")
    } else if str_eq(name, "unsafe-storage-patterns") {
        ("medium", "Flags temporary storage and dynamic Symbol keys")
    } else if str_eq(name, "missing-ttl-extension") {
        ("medium", "Flags persistent storage entries without TTL extension")
    } else if str_eq(name, "forbidden-std-imports") {
        ("high", "Flags use of std in no_std Soroban contracts")
    } else if str_eq(name, "hardcoded-address") {
        ("medium", "Flags hardcoded Stellar address literals")
    } else if str_eq(name, "unsafe-cross-contract-input") {
        ("high", "Flags unvalidated return values from cross-contract calls")
    } else if str_eq(name, "missing-contract-annotation") {
        ("medium", "Flags structs missing the #[contract] attribute")
    } else if str_eq(name, "delegate-call-risk") {
        ("high", "Flags delegate-call patterns that transfer execution control")
    } else if str_eq(name, "integer-division-truncation") {
        ("medium", "Flags integer division that silently truncates")
    } else if str_eq(name, "missing-event-emission") {
        ("medium", "Flags state-mutating functions with no event emission")
    } else if str_eq(name, "symbol-key-collision") {
        ("medium", "Flags storage keys that share the same Symbol value")
    } else if str_eq(name, "self-transfer") {
        ("medium", "Flags token transfers where sender may equal receiver")
    } else if str_eq(name, "missing-zero-address-check") {
        ("medium", "Flags Address parameters not checked for the zero address")
    } else if str_eq(name, "mutable-global-state") {
        ("high", "Flags mutable global state in contract code")
    } else if str_eq(name, "re-initialization-risk") {
        ("high", "Flags initializer-like functions without re-init guards")
    } else if str_eq(name, "unchecked-invoke-return") {
        ("medium", "Flags discarded cross-contract call return values")
    } else if str_eq(name, "missing-balance-check") {
        ("high", "Flags token transfers without balance or authorization checks")
    } else if str_eq(name, "unbounded-vec-growth") {
        ("medium", "Flags storage-backed Vec growth without a length cap")
    } else if str_eq(name, "unsafe-randomness") {
        ("high", "Flags ledger timestamp or sequence as randomness")
    } else if str_eq(name, "unchecked-divisor") {
        ("high", "Flags division by runtime values without zero guards")
    } else if str_eq(name, "reentrancy-risk") {
        ("high", "Flags storage writes followed by cross-contract calls")
    } else if str_eq(name, "panic-in-contract") {
        ("medium", "Flags panic!, unwrap, and expect in contract methods")
    } else if str_eq(name, "unprotected-upgrade") {
        ("high", "Flags upgrade entrypoints without authorization")
    } else if str_eq(name, "unprotected-token-mint") {
        ("high", "Flags token mint entrypoints without authorization")
    } else if str_eq(name, "unprotected-contract-deployment") {
        ("high", "Flags contract deployment calls without authorization")
    } else if str_eq(name, "unchecked-token-amount") {
        ("medium", "Flags token amounts used without validation")
    } else if str_eq(name, "large-loop") {
        ("medium", "Flags loops over unbounded collections")
    } else if str_eq(name, "missing-nonce") {
        ("medium", "Flags functions susceptible to replay attacks")
    } else if str_eq(name, "uninitialized-storage-read") {
        ("high", "Flags storage reads without initialization checks")
    } else if str_eq(name, "missing-event-for-admin-change") {
        ("medium", "Flags admin changes with no event emission")
    } else if str_eq(name, "missing-input-length-bound") {
        ("medium", "Flags input collections without length bound checks")
    } else if str_eq(name, "auth-after-storage-write") {
        ("high", "Flags authorization checks after storage writes")
    } else {
        ("low", "Custom detector")
    }
}

/// The rule description a SARIF log gives a check name.
pub open spec fn describe_rule_spec(name: Seq<char>) -> Seq<char> {
    if name == "missing-require-auth"@ {
        "Method writes to storage without env.require_auth()"@
    } else if name == "unchecked-arithmetic"@ {
        "Wrapping arithmetic operations may overflow"@
    } else if name == "unprotected-admin"@ {
        "Sensitive admin entrypoints lack an authorization gate"@
    } else if name == "unsafe-storage-patterns"@ {
        "Temporary storage or dynamic Symbol keys are risky"@
    } else if name == "missing-ttl-extension"@ {
        "Persistent entries may expire without TTL bump"@
    } else if name == "forbidden-std-imports"@ {
        "Crate imports std which is forbidden in no_std contracts"@
    } else if name == "hardcoded-address"@ {
        "Contract contains a hardcoded Stellar address string"@
    } else if name == "unsafe-cross-contract-input"@ {
        "Cross-contract call return value used without validation"@
    } else if name == "missing-contract-annotation"@ {
        "Struct missing #[contract] annotation"@
    } else if name == "delegate-call-risk"@ {
        "Delegate-style call pattern can transfer control unexpectedly"@
    } else if name == "integer-division-truncation"@ {
        "Integer division silently truncates the remainder"@
    } else if name == "missing-event-emission"@ {
        "State-mutating function emits no events"@
    } else if name == "symbol-key-collision"@ {
        "Multiple storage keys share the same Symbol value"@
    } else if name == "self-transfer"@ {
        "Token transfer destination may equal the sender"@
    } else if name == "missing-zero-address-check"@ {
        "Address argument not validated against the zero address"@
    } else if name == "mutable-global-state"@ {
        "Mutable global state is unsafe and not persisted on-chain"@
    } else if name == "re-initialization-risk"@ {
        "Initializer-like function can overwrite critical state"@
    } else if name == "unchecked-invoke-return"@ {
        "Cross-contract invocation result is discarded"@
    } else if name == "missing-balance-check"@ {
        "Token transfer occurs without a balance or authorization check"@
    } else if name == "unbounded-vec-growth"@ {
        "Storage-backed Vec can grow without a bound"@
    } else if name == "unsafe-randomness"@ {
        "Ledger data is used as a randomness source"@
    } else if name == "unchecked-divisor"@ {
        "Division uses a runtime divisor without a zero guard"@
    } else if name == "reentrancy-risk"@ {
        "Storage write followed by cross-contract invocation risks reentrancy"@
    } else if name == "panic-in-contract"@ {
        "Contract uses panic!, unwrap, or expect which abort the WASM execution"@
    } else if name == "unprotected-upgrade"@ {
        "Contract upgrade entrypoint lacks an authorization gate"@
    } else if name == "unprotected-token-mint"@ {
        "Token mint entrypoint lacks an authorization gate"@
    } else if name == "unprotected-contract-deployment"@ {
        "Contract deployment call lacks an authorization gate"@
    } else if name == "unchecked-token-amount"@ {
        "Token amount used without validation"@
    } else if name == "large-loop"@ {
        "Loop may iterate over an unbounded collection"@
    } else if name == "missing-nonce"@ {
        "Function susceptible to replay attacks lacks a nonce check"@
    } else if name == "uninitialized-storage-read"@ {
        "Storage value read without checking if it has been initialized"@
    } else if name == "missing-event-for-admin-change"@ {
        "Admin-state change emits no event for off-chain indexers"@
    } else if name == "missing-input-length-bound"@ {
        "Input collection used without a length bound check"@
    } else if name == "auth-after-storage-write"@ {
        "Authorization check occurs after a storage write"@
    } else {
        "Custom check"@
    }
}

/// The rule description of a check.
pub fn describe_rule(name: &str) -> (r: &'static str)
    ensures
        r@ == describe_rule_spec(name@),
{
    if str_eq(name, "missing-require-auth") {
        "Method writes to storage without env.require_auth()"
    } else if str_eq(name, "unchecked-arithmetic") {
        "Wrapping arithmetic operations may overflow"
    } else if str_eq(name, "unprotected-admin") {
        "Sensitive admin entrypoints lack an authorization gate"
    } else if str_eq(name, "unsafe-storage-patterns") {
        "Temporary storage or dynamic Symbol keys are risky"
    } else if str_eq(name, "missing-ttl-extension") {
        "Persistent entries may expire without TTL bump"
    } else if str_eq(name, "forbidden-std-imports") {
        "Crate imports std which is forbidden in no_std contracts"
    } else if str_eq(name, "hardcoded-address") {
        "Contract contains a hardcoded Stellar address string"
    } else if str_eq(name, "unsafe-cross-contract-input") {
        "Cross-contract call return value used without validation"
    } else if str_eq(name, "missing-contract-annotation") {
        "Struct missing #[contract] annotation"
    } else if str_eq(name, "delegate-call-risk") {
        "Delegate-style call pattern can transfer control unexpectedly"
    } else if str_eq(name, "integer-division-truncation") {
        "Integer division silently truncates the remainder"
    } else if str_eq(name, "missing-event-emission") {
        "State-mutating function emits no events"
    } else if str_eq(name, "symbol-key-collision") {
        "Multiple storage keys share the same Symbol value"
    } else if str_eq(name, "self-transfer") {
        "Token transfer destination may equal the sender"
    } else if str_eq(name, "missing-zero-address-check") {
        "Address argument not validated against the zero address"
    } else if str_eq(name, "mutable-global-state") {
        "Mutable global state is unsafe and not persisted on-chain"
    } else if str_eq(name, "re-initialization-risk") {
        "Initializer-like function can overwrite critical state"
    } else if str_eq(name, "unchecked-invoke-return") {
        "Cross-contract invocation result is discarded"
    } else if str_eq(name, "missing-balance-check") {
        "Token transfer occurs without a balance or authorization check"
    } else if str_eq(name, "unbounded-vec-growth") {
        "Storage-backed Vec can grow without a bound"
    } else if str_eq(name, "unsafe-randomness") {
        "Ledger data is used as a randomness source"
    } else if str_eq(name, "unchecked-divisor") {
        "Division uses a runtime divisor without a zero guard"
    } else if str_eq(name, "reentrancy-risk") {
        "Storage write followed by cross-contract invocation risks reentrancy"
    } else if str_eq(name, "panic-in-contract") {
        "Contract uses panic!, unwrap, or expect which abort the WASM execution"
    } else if str_eq(name, "unprotected-upgrade") {
        "Contract upgrade entrypoint lacks an authorization gate"
    } else if str_eq(name, "unprotected-token-mint") {
        "Token mint entrypoint lacks an authorization gate"
    } else if str_eq(name, "unprotected-contract-deployment") {
        "Contract deployment call lacks an authorization gate"
    } else if str_eq(name, "unchecked-token-amount") {
        "Token amount used without validation"
    } else if str_eq(name, "large-loop") {
        "Loop may iterate over an unbounded collection"
    } else if str_eq(name, "missing-nonce") {
        "Function susceptible to replay attacks lacks a nonce check"
    } else if str_eq(name, "uninitialized-storage-read") {
        "Storage value read without checking if it has been initialized"
    } else if str_eq(name, "missing-event-for-admin-change") {
        "Admin-state change emits no event for off-chain indexers"
    } else if str_eq(name, "missing-input-length-bound") {
        "Input collection used without a length bound check"
    } else if str_eq(name, "auth-after-storage-write") {
        "Authorization check occurs after a storage write"
    } else {
        "Custom check"
    }
}

/// The detailed explanation `explain` prints for a check name.
pub open spec fn explain_details_spec(name: Seq<char>) -> Seq<char> {
    if name == "missing-require-auth"@ {
        "Reports contract methods that mutate storage without calling require_auth or require_auth_for_args."@
    } else if name == "unchecked-arithmetic"@ {
        "Reports wrapping +, -, *, and compound arithmetic in contract methods; prefer checked_* or saturating_* APIs."@
    } else if name == "unprotected-admin"@ {
        "Reports public admin-like entrypoints such as set_owner, pause, migrate, or upgrade when they lack an auth gate."@
    } else if name == "unsafe-storage-patterns"@ {
        "Reports temporary storage mutations and dynamic Symbol keys that may expire unexpectedly or collide."@
    } else if name == "missing-ttl-extension"@ {
        "Reports persistent storage writes that do not extend TTL in the same function."@
    } else if name == "forbidden-std-imports"@ {
        "Reports std imports in Soroban contract files because deployable contracts must compile for no_std WASM."@
    } else if name == "hardcoded-address"@ {
        "Reports Stellar public-key-shaped string literals embedded directly in source."@
    } else if name == "unsafe-cross-contract-input"@ {
        "Reports invoke_contract return values stored directly without local validation."@
    } else if name == "missing-contract-annotation"@ {
        "Reports contractimpl blocks without a sibling struct annotated with #[contract]."@
    } else if name == "delegate-call-risk"@ {
        "Reports storage-derived cross-contract callees that can redirect execution if storage is poisoned."@
    } else if name == "integer-division-truncation"@ {
        "Reports integer division where truncation may silently change financial or accounting results."@
    } else if name == "missing-event-emission"@ {
        "Reports state-mutating functions that do not publish events for off-chain indexers."@
    } else if name == "symbol-key-collision"@ {
        "Reports duplicate symbol_short! keys in the same impl block."@
    } else if name == "self-transfer"@ {
        "Reports transfer-like functions that do not guard against sender and recipient being equal."@
    } else if name == "missing-zero-address-check"@ {
        "Reports Address parameters stored or used without checking for default or zero-address values."@
    } else if name == "mutable-global-state"@ {
        "Reports static mut items, which are unsafe and not valid persistent contract state."@
    } else if name == "re-initialization-risk"@ {
        "Reports initializer-like methods that write state without checking whether initialization already happened."@
    } else if name == "unchecked-invoke-return"@ {
        "Reports bare invoke_contract statements whose return values are discarded."@
    } else if name == "missing-balance-check"@ {
        "Reports token transfer calls that lack a preceding balance or authorization check."@
    } else if name == "unbounded-vec-growth"@ {
        "Reports storage-backed Vec values pushed and written back without an apparent length cap."@
    } else if name == "unsafe-randomness"@ {
        "Reports ledger timestamp or sequence usage as a randomness source."@
    } else if name == "unchecked-divisor"@ {
        "Reports division by runtime values without an apparent non-zero guard."@
    } else {
        "No detailed explanation is available for this custom check."@
    }
}

/// The detailed explanation of a check.
pub fn explain_details(name: &str) -> (r: &'static str)
    ensures
        r@ == explain_details_spec(name@),
{
    if str_eq(name, "missing-require-auth") {
        "Reports contract methods that mutate storage without calling require_auth or require_auth_for_args."
    } else if str_eq(name, "unchecked-arithmetic") {
        "Reports wrapping +, -, *, and compound arithmetic in contract methods; prefer checked_* or saturating_* APIs."
    } else if str_eq(name, "unprotected-admin") {
        "Reports public admin-like entrypoints such as set_owner, pause, migrate, or upgrade when they lack an auth gate."
    } else if str_eq(name, "unsafe-storage-patterns") {
        "Reports temporary storage mutations and dynamic Symbol keys that may expire unexpectedly or collide."
    } else if str_eq(name, "missing-ttl-extension") {
        "Reports persistent storage writes that do not extend TTL in the same function."
    } else if str_eq(name, "forbidden-std-imports") {
        "Reports std imports in Soroban contract files because deployable contracts must compile for no_std WASM."
    } else if str_eq(name, "hardcoded-address") {
        "Reports Stellar public-key-shaped string literals embedded directly in source."
    } else if str_eq(name, "unsafe-cross-contract-input") {
        "Reports invoke_contract return values stored directly without local validation."
    } else if str_eq(name, "missing-contract-annotation") {
        "Reports contractimpl blocks without a sibling struct annotated with #[contract]."
    } else if str_eq(name, "delegate-call-risk") {
        "Reports storage-derived cross-contract callees that can redirect execution if storage is poisoned."
    } else if str_eq(name, "integer-division-truncation") {
        "Reports integer division where truncation may silently change financial or accounting results."
    } else if str_eq(name, "missing-event-emission") {
        "Reports state-mutating functions that do not publish events for off-chain indexers."
    } else if str_eq(name, "symbol-key-collision") {
        "Reports duplicate symbol_short! keys in the same impl block."
    } else if str_eq(name, "self-transfer") {
        "Reports transfer-like functions that do not guard against sender and recipient being equal."
    } else if str_eq(name, "missing-zero-address-check") {
        "Reports Address parameters stored or used without checking for default or zero-address values."
    } else if str_eq(name, "mutable-global-state") {
        "Reports static mut items, which are unsafe and not valid persistent contract state."
    } else if str_eq(name, "re-initialization-risk") {
        "Reports initializer-like methods that write state without checking whether initialization already happened."
    } else if str_eq(name, "unchecked-invoke-return") {
        "Reports bare invoke_contract statements whose return values are discarded."
    } else if str_eq(name, "missing-balance-check") {
        "Reports token transfer calls that lack a preceding balance or authorization check."
    } else if str_eq(name, "unbounded-vec-growth") {
        "Reports storage-backed Vec values pushed and written back without an apparent length cap."
    } else if str_eq(name, "unsafe-randomness") {
        "Reports ledger timestamp or sequence usage as a randomness source."
    } else if str_eq(name, "unchecked-divisor") {
        "Reports division by runtime values without an apparent non-zero guard."
    } else {
        "No detailed explanation is available for this custom check."
    }
}

/// The SARIF level of a severity.
pub open spec fn sarif_level_spec(s: Severity) -> Seq<char> {
    match s {
        Severity::High => "error"@,
        Severity::Medium => "warning"@,
        Severity::Low => "note"@,
    }
}

/// The SARIF level of a severity: `error`, `warning` or `note`.
pub fn severity_to_sarif_level(s: Severity) -> (r: &'static str)
    ensures
        r@ == sarif_level_spec(s),
{
    match s {
        Severity::High => "error",
        Severity::Medium => "warning",
        Severity::Low => "note",
    }
}

/// How many findings have severity `sev`.
pub open spec fn count_severity_spec(s: Seq<FindingView>, sev: Severity) -> nat
    decreases s.len(),
{
    if s.len() == 0 {
        0
    } else {
        count_severity_spec(s.drop_last(), sev) + if s.last().severity == sev {
            1nat
        } else {
            0nat
        }
    }
}

proof fn lemma_count_le_len(s: Seq<FindingView>, sev: Severity)
    ensures
        count_severity_spec(s, sev) <= s.len(),
    decreases s.len(),
{
    if s.len() > 0 {
        lemma_count_le_len(s.drop_last(), sev);
    }
}

/// The number of findings with severity `sev`.
pub fn count_severity(findings: &[Finding], sev: Severity) -> (r: usize)
    ensures
        r == count_severity_spec(findings_view(findings@), sev),
{
    let ghost fv = findings_view(findings@);
    let mut n: usize = 0;
    let mut i: usize = 0;
    while i < findings.len()
        invariant
            0 <= i <= findings.len(),
            fv == findings_view(findings@),
            n == count_severity_spec(fv.take(i as int), sev),
        decreases findings.len() - i,
    {
        assert(fv.take(i + 1).drop_last() =~= fv.take(i as int));
        assert(fv.take(i + 1).last() == findings@[i as int]@);
        proof {
            lemma_count_le_len(fv.take(i as int), sev);
        }
        if findings[i].severity == sev {
            n += 1;
        }
        i += 1;
    }
    assert(fv.take(i as int) =~= fv);
    n
}

/// The summary line: counts by severity and the number of files scanned.
pub open spec fn summary_text_spec(s: Seq<FindingView>, files_scanned: nat) -> Seq<char> {
    decimal(count_severity_spec(s, Severity::High)) + " High, "@ + decimal(count_severity_spec(s, Severity::Medium))
        + " Medium, "@ + decimal(count_severity_spec(s, Severity::Low)) + " Low \u{2014} across "@ + decimal(
        files_scanned,
    ) + " file(s)"@
}

/// The summary line, e.g. `1 High, 1 Medium, 0 Low — across 6 file(s)`.
pub fn summary_text(findings: &[Finding], files_scanned: usize) -> (r: String)
    ensures
        r@ == summary_text_spec(findings_view(findings@), files_scanned as nat),
{
    let high = count_severity(findings, Severity::High);
    let medium = count_severity(findings, Severity::Medium);
    let low = count_severity(findings, Severity::Low);
    let mut s = decimal_string(high as u64);
    s.append(" High, ");
    s.append(decimal_string(medium as u64).as_str());
    s.append(" Medium, ");
    s.append(decimal_string(low as u64).as_str());
    s.append(" Low \u{2014} across ");
    s.append(decimal_string(files_scanned as u64).as_str());
    s.append(" file(s)");
    s
}

/// The severity column of the Markdown report.
pub open spec fn markdown_severity(s: Severity) -> Seq<char> {
    match s {
        Severity::High => "**HIGH**"@,
        Severity::Medium => "MEDIUM"@,
        Severity::Low => "LOW"@,
    }
}

/// Row `i` (0-based; numbered from 1) of the Markdown table.
pub open spec fn markdown_row(i: nat, f: FindingView) -> Seq<char> {
    "| "@ + decimal(i + 1) + " | "@ + markdown_severity(f.severity) + " | "@ + f.file_path + " | "@ + decimal(
        f.line as nat,
    ) + " | "@ + f.check_name + " | "@ + f.function_name + " |\n"@
}

/// The first `k` rows of the Markdown table.
pub open spec fn markdown_rows(s: Seq<FindingView>, k: int) -> Seq<char>
    decreases k,
{
    if k <= 0 || k > s.len() {
        Seq::empty()
    } else {
        markdown_rows(s, k - 1) + markdown_row((k - 1) as nat, s[k - 1])
    }
}

/// The Markdown report: a heading, then either a note that nothing was found or a table
/// of the findings followed by their count by severity.
pub open spec fn markdown_report_spec(s: Seq<FindingView>) -> Seq<char> {
    let head = "## Soroban Guard Findings\n\n"@;
    if s.len() == 0 {
        head + "No issues found.\n"@
    } else {
        head + "| # | Severity | File | Line | Check | Function |\n"@ + "|---|----------|------|------|-------|----------|\n"@
            + markdown_rows(s, s.len() as int) + "\n**"@ + decimal(s.len()) + " finding(s): "@ + decimal(
            count_severity_spec(s, Severity::High),
        ) + " High, "@ + decimal(count_severity_spec(s, Severity::Medium)) + " Medium, "@ + decimal(
            count_severity_spec(s, Severity::Low),
        ) + " Low**\n"@
    }
}

fn markdown_severity_exec(s: Severity) -> (r: &'static str)
    ensures
        r@ == markdown_severity(s),
{
    match s {
        Severity::High => "**HIGH**",
        Severity::Medium => "MEDIUM",
        Severity::Low => "LOW",
    }
}

fn markdown_row_text(i: usize, f: &Finding) -> (r: String)
    requires
        i < usize::MAX,
    ensures
        r@ == markdown_row(i as nat, f@),
{
    let mut out = String::from_str("| ");
    out.append(decimal_string((i + 1) as u64).as_str());
    out.append(" | ");
    out.append(markdown_severity_exec(f.severity));
    out.append(" | ");
    out.append(f.file_path.as_str());
    out.append(" | ");
    out.append(decimal_string(f.line as u64).as_str());
    out.append(" | ");
    out.append(f.check_name.as_str());
    out.append(" | ");
    out.append(f.function_name.as_str());
    out.append(" |\n");
    out
}

/// The Markdown report of the findings, as printed.
pub fn markdown_report(findings: &[Finding]) -> (r: String)
    ensures
        r@ == markdown_report_spec(findings_view(findings@)),
{
    let ghost fv = findings_view(findings@);
    let mut out = String::from_str("## Soroban Guard Findings\n\n");
    if findings.len() == 0 {
        out.append("No issues found.\n");
        return out;
    }
    out.append("| # | Severity | File | Line | Check | Function |\n");
    out.append("|---|----------|------|------|-------|----------|\n");
    let ghost head = out@;
    let mut i: usize = 0;
    while i < findings.len()
        invariant
            0 <= i <= findings.len(),
            fv == findings_view(findings@),
            out@ == head + markdown_rows(fv, i as int),
        decreases findings.len() - i,
    {
        let f = &findings[i];
        assert(fv[i as int] == f@);
        let row = markdown_row_text(i, f);
        out.append(row.as_str());
        assert(out@ =~= head + markdown_rows(fv, i + 1));
        i += 1;
    }
    let high = count_severity(findings, Severity::High);
    let medium = count_severity(findings, Severity::Medium);
    let low = count_severity(findings, Severity::Low);
    out.append("\n**");
    out.append(decimal_string(findings.len() as u64).as_str());
    out.append(" finding(s): ");
    out.append(decimal_string(high as u64).as_str());
    out.append(" High, ");
    out.append(decimal_string(medium as u64).as_str());
    out.append(" Medium, ");
    out.append(decimal_string(low as u64).as_str());
    out.append(" Low**\n");
    out
}

/// The findings to display and how many are left out: all of them when `max` is 0 or not
/// exceeded, else the first `max`.
pub fn truncate(findings: &[Finding], max: usize) -> (r: (&[Finding], usize))
    ensures
        if max == 0 || findings@.len() <= max {
            r.0@ == findings@ && r.1 == 0
        } else {
            r.0@ == findings@.subrange(0, max as int) && r.1 == findings@.len() - max
        },
{
    if max == 0 || findings.len() <= max {
        (findings, 0)
    } else {
        let (head, _) = findings.split_at(max);
        (head, findings.len() - max)
    }
}

/// `text` as a terminal hyperlink (OSC 8) to `url` when links are enabled, else `text`.
pub open spec fn hyperlink_spec(url: Seq<char>, text: Seq<char>, enabled: bool) -> Seq<char> {
    if enabled {
        "\x1b]8;;"@ + url + "\x1b\\"@ + text + "\x1b]8;;\x1b\\"@
    } else {
        text
    }
}

/// Wraps `text` in a hyperlink to `url`; `enabled` says whether the terminal shows
/// colors (and so links).
pub fn hyperlink(url: &str, text: &str, enabled: bool) -> (r: String)
    ensures
        r@ == hyperlink_spec(url@, text@, enabled),
{
    if enabled {
        let mut s = String::from_str("\x1b]8;;");
        s.append(url);
        s.append("\x1b\\");
        s.append(text);
        s.append("\x1b]8;;\x1b\\");
        s
    } else {
        String::from_str(text)
    }
}

/// One `list-checks` line: name, severity label and description.
pub open spec fn list_line_spec(name: Seq<char>) -> Seq<char> {
    name + " | "@ + describe_check_spec(name).0 + " | "@ + describe_check_spec(name).1
}

/// The `list-checks` line for a check.
pub fn list_line(name: &str) -> (r: String)
    ensures
        r@ == list_line_spec(name@),
{
    let (sev, desc) = describe_check(name);
    let mut s = String::from_str(name);
    s.append(" | ");
    s.append(sev);
    s.append(" | ");
    s.append(desc);
    s
}

/// The uppercase form of a string as std's `str::to_uppercase` computes it.
pub uninterp spec fn uppercase(s: Seq<char>) -> Seq<char>;

/// Calls std's `str::to_uppercase`; the result is named by `uppercase`. On ASCII text it
/// makes each small letter capital and keeps every other character.
#[verifier::external_body]
fn to_uppercase(s: &str) -> (r: String)
    ensures
        r@ == uppercase(s@),
        crate::text::is_ascii_text(s@) ==> r@ == s@.map_values(|c: char| crate::text::ascii_upper_char(c)),
{
    s.to_uppercase()
}

/// What `explain` prints for a known check, line by line.
pub open spec fn explain_text_spec(name: Seq<char>) -> Seq<char> {
    "Name:      "@ + name + "\nSeverity:  "@ + uppercase(describe_check_spec(name).0) + "\nSummary:   "@
        + describe_check_spec(name).1 + "\nDetails:\n  "@ + explain_details_spec(name) + "\n"@
}

/// The `explain` text of a check.
pub fn explain_text(name: &str) -> (r: String)
    ensures
        r@ == explain_text_spec(name@),
{
    let (sev, summary) = describe_check(name);
    let details = explain_details(name);
    let mut s = String::from_str("Name:      ");
    s.append(name);
    s.append("\nSeverity:  ");
    s.append(to_uppercase(sev).as_str());
    s.append("\nSummary:   ");
    s.append(summary);
    s.append("\nDetails:\n  ");
    s.append(details);
    s.append("\n");
    s
}

/// A rule of the SARIF log.
pub struct SarifRule {
    pub id: String,
    pub description: String,
    pub level: String,
}

/// A result of the SARIF log.
pub struct SarifResult {
    pub rule_id: String,
    pub level: String,
    pub message: String,
    pub uri: String,
    pub start_line: usize,
}

pub open spec fn rule_of(f: FindingView) -> (Seq<char>, Seq<char>, Seq<char>) {
    (f.check_name, describe_rule_spec(f.check_name), sarif_level_spec(f.severity))
}

pub open spec fn check_names_of(s: Seq<FindingView>) -> Seq<Seq<char>> {
    s.map_values(|f: FindingView| f.check_name)
}

/// One rule per check name, in the order the names first occur, described after the
/// name's first finding.
pub open spec fn sarif_rules_spec(s: Seq<FindingView>) -> Seq<(Seq<char>, Seq<char>, Seq<char>)>
    decreases s.len(),
{
    if s.len() == 0 {
        Seq::empty()
    } else {
        let r = sarif_rules_spec(s.drop_last());
        if check_names_of(s.drop_last()).contains(s.last().check_name) {
            r
        } else {
            r.push(rule_of(s.last()))
        }
    }
}

pub open spec fn rules_view(v: Seq<SarifRule>) -> Seq<(Seq<char>, Seq<char>, Seq<char>)> {
    v.map_values(|r: SarifRule| (r.id@, r.description@, r.level@))
}

/// The rules of the SARIF log for the findings.
pub fn sarif_rules(findings: &[Finding]) -> (r: Vec<SarifRule>)
    ensures
        rules_view(r@) == sarif_rules_spec(findings_view(findings@)),
{
    let ghost fv = findings_view(findings@);
    let mut seen: Vec<String> = Vec::new();
    let mut out: Vec<SarifRule> = Vec::new();
    let mut i: usize = 0;
    while i < findings.len()
        invariant
            0 <= i <= findings.len(),
            fv == findings_view(findings@),
            rules_view(out@) == sarif_rules_spec(fv.take(i as int)),
            forall|n: Seq<char>| #[trigger] views(seen@).contains(n) <==> check_names_of(fv.take(i as int)).contains(n),
        decreases findings.len() - i,
    {
        let f = &findings[i];
        let ghost p = fv.take(i as int);
        assert(fv.take(i + 1).drop_last() =~= p);
        assert(fv.take(i + 1).last() == f@);
        assert(check_names_of(fv.take(i + 1)) =~= check_names_of(p).push(f.check_name@));
        let ghost before = seen@;
        if !vec_contains_str(&seen, f.check_name.as_str()) {
            let ghost prev = out@;
            out.push(
                SarifRule {
                    id: f.check_name.clone(),
                    description: String::from_str(describe_rule(f.check_name.as_str())),
                    level: String::from_str(severity_to_sarif_level(f.severity)),
                },
            );
            assert(rules_view(out@) =~= rules_view(prev).push(rule_of(f@)));
            seen.push(f.check_name.clone());
            assert(views(seen@) =~= views(before).push(f.check_name@));
        }
        proof {
            let ns = check_names_of(fv.take(i + 1));
            let np = check_names_of(p);
            let nm = f.check_name@;
            assert forall|n: Seq<char>| ns.contains(n) <==> (np.contains(n) || n == nm) by {
                assert(ns[ns.len() - 1] == nm);
                if ns.contains(n) {
                    let w = choose|w: int| 0 <= w < ns.len() && ns[w] == n;
                    if w < ns.len() - 1 {
                        assert(np[w] == n);
                    }
                }
                if np.contains(n) {
                    let w = choose|w: int| 0 <= w < np.len() && np[w] == n;
                    assert(ns[w] == n);
                }
            }
            let vb = views(before);
            let vs = views(seen@);
            assert(vb.contains(nm) ==> vs == vb);
            assert forall|n: Seq<char>| vs.contains(n) <==> (vb.contains(n) || n == nm) by {
                if !vb.contains(nm) {
                    assert(vs[vs.len() - 1] == nm);
                    if vs.contains(n) {
                        let w = choose|w: int| 0 <= w < vs.len() && vs[w] == n;
                        if w < vs.len() - 1 {
                            assert(vb[w] == n);
                        }
                    }
                    if vb.contains(n) {
                        let w = choose|w: int| 0 <= w < vb.len() && vb[w] == n;
                        assert(vs[w] == n);
                    }
                }
            }
        }
        i += 1;
    }
    assert(fv.take(i as int) =~= fv);
    out
}

pub open spec fn result_of(f: FindingView) -> (Seq<char>, Seq<char>, Seq<char>, Seq<char>, usize) {
    (f.check_name, sarif_level_spec(f.severity), f.description, f.file_path, f.line)
}

pub open spec fn sarif_results_view(v: Seq<SarifResult>) -> Seq<(Seq<char>, Seq<char>, Seq<char>, Seq<char>, usize)> {
    v.map_values(|r: SarifResult| (r.rule_id@, r.level@, r.message@, r.uri@, r.start_line))
}

/// The results of the SARIF log: one per finding, in order.
pub fn sarif_results(findings: &[Finding]) -> (r: Vec<SarifResult>)
    ensures
        sarif_results_view(r@) == findings_view(findings@).map_values(|f: FindingView| result_of(f)),
{
    let ghost fv = findings_view(findings@);
    let mut out: Vec<SarifResult> = Vec::new();
    let mut i: usize = 0;
    while i < findings.len()
        invariant
            0 <= i <= findings.len(),
            fv == findings_view(findings@),
            sarif_results_view(out@) == fv.take(i as int).map_values(|f: FindingView| result_of(f)),
        decreases findings.len() - i,
    {
        let f = &findings[i];
        let ghost prev = out@;
        out.push(
            SarifResult {
                rule_id: f.check_name.clone(),
                level: String::from_str(severity_to_sarif_level(f.severity)),
                message: f.description.clone(),
                uri: f.file_path.clone(),
                start_line: f.line,
            },
        );
        assert(fv[i as int] == f@);
        assert(sarif_results_view(out@) =~= sarif_results_view(prev).push(result_of(f@)));
        assert(fv.take(i + 1) =~= fv.take(i as int).push(fv[i as int]));
        assert(fv.take(i + 1).map_values(|f: FindingView| result_of(f)) =~= fv.take(i as int).map_values(
            |f: FindingView| result_of(f),
        ).push(result_of(fv[i as int])));
        i += 1;
    }
    assert(fv.take(i as int) =~= fv);
    out
}

/// The content of a SARIF 2.1.0 log for the findings.
pub struct SarifLog {
    pub schema: String,
    pub version: String,
    pub tool_name: String,
    pub information_uri: String,
    pub help_uri: String,
    pub rules: Vec<SarifRule>,
    pub results: Vec<SarifResult>,
}

/// The SARIF log of the findings: the tool's identity, one rule per check name and one
/// result per finding.
pub fn build_sarif(findings: &[Finding]) -> (r: SarifLog)
    ensures
        r.schema@ == "https://json.schemastore.org/sarif-2.1.0.json"@,
        r.version@ == "2.1.0"@,
        r.tool_name@ == "soroban-guard"@,
        r.information_uri@ == "https://github.com/SorobanGuard/Guard-CLI"@,
        r.help_uri@ == "https://github.com/SorobanGuard/Guard-CLI"@,
        rules_view(r.rules@) == sarif_rules_spec(findings_view(findings@)),
        sarif_results_view(r.results@) == findings_view(findings@).map_values(|f: FindingView| result_of(f)),
{
    SarifLog {
        schema: String::from_str("https://json.schemastore.org/sarif-2.1.0.json"),
        version: String::from_str("2.1.0"),
        tool_name: String::from_str("soroban-guard"),
        information_uri: String::from_str("https://github.com/SorobanGuard/Guard-CLI"),
        help_uri: String::from_str("https://github.com/SorobanGuard/Guard-CLI"),
        rules: sarif_rules(findings),
        results: sarif_results(findings),
    }
}

/// The summary block of the JSON report.
pub struct ScanSummary {
    pub total: usize,
    pub high: usize,
    pub medium: usize,
    pub low: usize,
    pub files_scanned: usize,
}

/// The JSON report's summary: the number of findings, by severity, and of files scanned.
pub fn json_summary(findings: &[Finding], files_scanned: usize) -> (r: ScanSummary)
    ensures
        r.total == findings@.len(),
        r.high == count_severity_spec(findings_view(findings@), Severity::High),
        r.medium == count_severity_spec(findings_view(findings@), Severity::Medium),
        r.low == count_severity_spec(findings_view(findings@), Severity::Low),
        r.files_scanned == files_scanned,
{
    ScanSummary {
        total: findings.len(),
        high: count_severity(findings, Severity::High),
        medium: count_severity(findings, Severity::Medium),
        low: count_severity(findings, Severity::Low),
        files_scanned,
    }
}

/// The counts by severity add up to the number of findings.
pub proof fn lemma_counts_sum(s: Seq<FindingView>)
    ensures
        count_severity_spec(s, Severity::High) + count_severity_spec(s, Severity::Medium) + count_severity_spec(
            s,
            Severity::Low,
        ) == s.len(),
    decreases s.len(),
{
    if s.len() > 0 {
        lemma_counts_sum(s.drop_last());
    }
}

} // verus!
