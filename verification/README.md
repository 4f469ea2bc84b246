# soroban_guard

A static analyzer for Soroban smart contracts whose analysis is verified with Verus.

The library (`src/`) works on a plain-value model of a parsed Rust file
(`syntax.rs`). `source.rs` parses source text with `syn` (behind a trusted call whose
outcome is named) and hands the syntax tree to a lowering into that model; a parse
failure is reported exactly when `syn` refuses the text. The lowering itself (which
syntax is modelled, the line numbers taken from spans, the receiver text printed back by
`quote`) walks `syn`'s tree, which the verifier cannot look into, and is unverified
front-end code in `app/lower.rs`; where a macro's first argument ends is decided in
`syntax.rs`. Given the model and the source text, what is reported is decided by
verified code with contracts:

- `admin.rs`, `annotations.rs`, `balance.rs`, `global_state.rs`, `reinit.rs`,
  `transfer.rs`, `unchecked_divisor.rs`, `unprotected_upgrade.rs`, `vec_growth.rs` —
  the checks; each states exactly which findings it reports for a file.
- `checks.rs` — the registry of built-in checks, with and without disabled ones.
- `suppress.rs` — `// soroban-guard: allow(..)` comments, by line and by method.
- `source.rs` — from source text to a file's findings.
- `analyzer.rs` — file selection (glob filters, generated-file headers), per-file
  processing (labelling, suppression, stable ordering by line, de-duplication) and the
  merge of several files' findings.
- `pretty.rs` — the layout and styles of the terminal report.
- `report.rs`, `options.rs`, `dates.rs` — the command-line tool's texts (descriptions,
  summaries, the Markdown report, SARIF data), its option handling and time stamps.
- `scan_laws.rs`, `check_laws.rs` — properties that span functions: ordering,
  de-duplication and suppression of reported findings; check names; extra names.

`app/` is the command-line tool around the library: argument parsing, walking the
file system, lowering `syn`'s tree, JSON/SARIF output through `serde_json`, colored
terminal output and watch mode.
