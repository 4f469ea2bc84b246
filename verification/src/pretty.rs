//! The layout of the terminal report: which lines appear, in which order, and how each
//! piece of text is styled. The front end turns the styles into terminal colors.
use vstd::prelude::*;
use crate::finding::{findings_view, Finding, FindingView, Severity};
use crate::report::{hyperlink, hyperlink_spec, summary_text, summary_text_spec};
use crate::text::{decimal, decimal_string};

verus! {

/// How a piece of the terminal report is drawn.
#[derive(Clone, Copy, Debug, PartialEq, Eq, Structural)]
pub enum Style {
    Plain,
    CyanBold,
    Dimmed,
    Green,
    YellowBold,
    RedBold,
    MagentaBold,
    White,
    BrightWhite,
    Red,
    Magenta,
    Yellow,
}

/// A piece of text with its style.
pub struct Piece {
    pub text: String,
    pub style: Style,
}

pub type PieceView = (Seq<char>, Style);

pub open spec fn line_view(l: Seq<Piece>) -> Seq<PieceView> {
    l.map_values(|p: Piece| (p.text@, p.style))
}

pub open spec fn lines_view(ls: Seq<Vec<Piece>>) -> Seq<Seq<PieceView>> {
    ls.map_values(|l: Vec<Piece>| line_view(l@))
}

/// The style of a severity label.
pub open spec fn severity_style(s: Severity) -> Style {
    match s {
        Severity::High => Style::RedBold,
        Severity::Medium => Style::MagentaBold,
        Severity::Low => Style::White,
    }
}

/// The style of a check name, by severity.
pub open spec fn check_style(s: Severity) -> Style {
    match s {
        Severity::High => Style::Red,
        Severity::Medium => Style::Magenta,
        Severity::Low => Style::White,
    }
}

pub open spec fn severity_word(s: Severity) -> Seq<char> {
    match s {
        Severity::High => "HIGH"@,
        Severity::Medium => "MEDIUM"@,
        Severity::Low => "LOW"@,
    }
}

/// The lines of finding `i` (0-based, numbered from 1): its heading, function and
/// description, then its suggestion and documentation link when it has them, then a blank
/// line.
pub open spec fn entry_lines(i: nat, f: FindingView, links: bool) -> Seq<Seq<PieceView>> {
    let head = seq![
        ("  "@, Style::Plain),
        ("["@ + decimal(i + 1) + "]"@, Style::Dimmed),
        ("  "@, Style::Plain),
        (severity_word(f.severity), severity_style(f.severity)),
        ("  "@, Style::Plain),
        (f.file_path + ":"@ + decimal(f.line as nat), Style::BrightWhite),
        ("  "@, Style::Plain),
        (f.check_name, check_style(f.severity)),
    ];
    let function = seq![
        ("         "@, Style::Plain),
        ("function:"@, Style::Dimmed),
        (" `"@ + f.function_name + "`"@, Style::Plain),
    ];
    let description = seq![("         "@ + f.description, Style::Plain)];
    let suggestion = match f.suggestion {
        Some(s) => seq![seq![("         "@, Style::Plain), ("suggestion:"@, Style::Dimmed), (" "@ + s, Style::Plain)]],
        None => Seq::empty(),
    };
    let docs = match f.rule_url {
        Some(u) => seq![
            seq![("         "@, Style::Plain), ("docs:"@, Style::Dimmed), (" "@ + hyperlink_spec(u, u, links), Style::Plain)],
        ],
        None => Seq::empty(),
    };
    seq![head, function, description] + suggestion + docs + seq![Seq::<PieceView>::empty()]
}

/// The lines of the first `k` findings.
pub open spec fn entries(s: Seq<FindingView>, k: int, links: bool) -> Seq<Seq<PieceView>>
    decreases k,
{
    if k <= 0 || k > s.len() {
        Seq::empty()
    } else {
        entries(s, k - 1, links) + entry_lines((k - 1) as nat, s[k - 1], links)
    }
}

/// The terminal report: a heading naming the scanned root; "No issues found." when there
/// is nothing to show and nothing was left out, else the total, each finding and a notice
/// of how many were left out; then the summary line.
pub open spec fn pretty_spec(
    s: Seq<FindingView>,
    files_scanned: nat,
    root_label: Seq<char>,
    truncated: nat,
    links: bool,
) -> Seq<Seq<PieceView>> {
    let blank = Seq::<PieceView>::empty();
    let top = seq![
        blank,
        seq![("Soroban Guard Core"@, Style::CyanBold), (" "@, Style::Plain), ("(scan: "@ + root_label + ")"@, Style::Dimmed)],
        blank,
    ];
    let body = if s.len() == 0 && truncated == 0 {
        seq![seq![("  "@, Style::Plain), ("No issues found."@, Style::Green)], blank]
    } else {
        seq![seq![("  "@, Style::Plain), (decimal(s.len() + truncated), Style::YellowBold), (" finding(s):"@, Style::Plain)], blank]
            + entries(s, s.len() as int, links) + if truncated > 0 {
            seq![
                seq![
                    ("  "@, Style::Plain),
                    (
                        "... (truncated \u{2014} "@ + decimal(truncated)
                            + " more finding(s) not shown, use --max-findings 0 for all)"@,
                        Style::Yellow,
                    ),
                ],
                blank,
            ]
        } else {
            Seq::empty()
        }
    };
    top + body + seq![seq![("  "@, Style::Plain), (summary_text_spec(s, files_scanned), Style::Plain)], blank]
}

fn piece(text: String, style: Style) -> (r: Piece)
    ensures
        r.text@ == text@,
        r.style == style,
{
    Piece { text, style }
}

fn lit(text: &str, style: Style) -> (r: Piece)
    ensures
        r.text@ == text@,
        r.style == style,
{
    Piece { text: String::from_str(text), style }
}

fn severity_piece(s: Severity) -> (r: Piece)
    ensures
        r.text@ == severity_word(s),
        r.style == severity_style(s),
{
    match s {
        Severity::High => lit("HIGH", Style::RedBold),
        Severity::Medium => lit("MEDIUM", Style::MagentaBold),
        Severity::Low => lit("LOW", Style::White),
    }
}

fn check_piece(f: &Finding) -> (r: Piece)
    ensures
        r.text@ == f.check_name@,
        r.style == check_style(f.severity),
{
    let style = match f.severity {
        Severity::High => Style::Red,
        Severity::Medium => Style::Magenta,
        Severity::Low => Style::White,
    };
    piece(f.check_name.clone(), style)
}

fn push_line(out: &mut Vec<Vec<Piece>>, line: Vec<Piece>)
    ensures
        lines_view(final(out)@) == lines_view(old(out)@).push(line_view(line@)),
{
    let ghost before = out@;
    out.push(line);
    assert(lines_view(out@) =~= lines_view(before).push(line_view(line@)));
}

fn push_entry(out: &mut Vec<Vec<Piece>>, i: usize, f: &Finding, links: bool)
    requires
        i < usize::MAX,
    ensures
        lines_view(final(out)@) == lines_view(old(out)@) + entry_lines(i as nat, f@, links),
{
    let ghost start = lines_view(out@);
    let mut number = String::from_str("[");
    number.append(decimal_string((i + 1) as u64).as_str());
    number.append("]");
    let mut location = f.file_path.clone();
    location.append(":");
    location.append(decimal_string(f.line as u64).as_str());
    let head = vec![
        lit("  ", Style::Plain),
        piece(number, Style::Dimmed),
        lit("  ", Style::Plain),
        severity_piece(f.severity),
        lit("  ", Style::Plain),
        piece(location, Style::BrightWhite),
        lit("  ", Style::Plain),
        check_piece(f),
    ];
    let mut name = String::from_str(" `");
    name.append(f.function_name.as_str());
    name.append("`");
    let function = vec![lit("         ", Style::Plain), lit("function:", Style::Dimmed), piece(name, Style::Plain)];
    let mut desc = String::from_str("         ");
    desc.append(f.description.as_str());
    let description = vec![piece(desc, Style::Plain)];
    let ghost e = entry_lines(i as nat, f@, links);
    assert(line_view(head@) =~= e[0]);
    assert(line_view(function@) =~= e[1]);
    assert(line_view(description@) =~= e[2]);
    push_line(out, head);
    push_line(out, function);
    push_line(out, description);
    assert(lines_view(out@) =~= start + e.take(3));
    let mut n: usize = 3;
    match &f.suggestion {
        Some(s) => {
            let mut t = String::from_str(" ");
            t.append(s.as_str());
            let line = vec![lit("         ", Style::Plain), lit("suggestion:", Style::Dimmed), piece(t, Style::Plain)];
            assert(line_view(line@) =~= e[3]);
            push_line(out, line);
            n = 4;
        },
        None => {},
    }
    assert(lines_view(out@) =~= start + e.take(n as int));
    match &f.rule_url {
        Some(u) => {
            let mut t = String::from_str(" ");
            t.append(hyperlink(u.as_str(), u.as_str(), links).as_str());
            let line = vec![lit("         ", Style::Plain), lit("docs:", Style::Dimmed), piece(t, Style::Plain)];
            assert(line_view(line@) =~= e[n as int]);
            push_line(out, line);
            n = n + 1;
        },
        None => {},
    }
    assert(lines_view(out@) =~= start + e.take(n as int));
    push_line(out, Vec::new());
    assert(line_view(Seq::<Piece>::empty()) =~= Seq::<PieceView>::empty());
    assert(lines_view(out@) =~= start + e);
}

/// The lines of the terminal report for `findings` (the ones shown), the number of files
/// scanned, the scanned root as shown, how many findings were left out, and whether links
/// are drawn.
pub fn pretty_lines(
    findings: &[Finding],
    files_scanned: usize,
    root_label: &str,
    truncated_count: usize,
    links: bool,
) -> (r: Vec<Vec<Piece>>)
    requires
        findings@.len() + truncated_count <= usize::MAX,
    ensures
        lines_view(r@) == pretty_spec(
            findings_view(findings@),
            files_scanned as nat,
            root_label@,
            truncated_count as nat,
            links,
        ),
{
    let ghost fv = findings_view(findings@);
    let mut out: Vec<Vec<Piece>> = Vec::new();
    assert(lines_view(out@) =~= Seq::<Seq<PieceView>>::empty());
    push_line(&mut out, Vec::new());
    let mut scan = String::from_str("(scan: ");
    scan.append(root_label);
    scan.append(")");
    let title = vec![lit("Soroban Guard Core", Style::CyanBold), lit(" ", Style::Plain), piece(scan, Style::Dimmed)];
    assert(line_view(title@) =~= seq![
        ("Soroban Guard Core"@, Style::CyanBold),
        (" "@, Style::Plain),
        ("(scan: "@ + root_label@ + ")"@, Style::Dimmed),
    ]);
    push_line(&mut out, title);
    push_line(&mut out, Vec::new());
    assert(line_view(Seq::<Piece>::empty()) =~= Seq::<PieceView>::empty());
    let ghost top = lines_view(out@);
    if findings.len() == 0 && truncated_count == 0 {
        let l = vec![lit("  ", Style::Plain), lit("No issues found.", Style::Green)];
        assert(line_view(l@) =~= seq![("  "@, Style::Plain), ("No issues found."@, Style::Green)]);
        push_line(&mut out, l);
        push_line(&mut out, Vec::new());
    } else {
        let total = findings.len() + truncated_count;
        let l = vec![lit("  ", Style::Plain), piece(decimal_string(total as u64), Style::YellowBold), lit(" finding(s):", Style::Plain)];
        assert(line_view(l@) =~= seq![
            ("  "@, Style::Plain),
            (decimal((fv.len() + truncated_count) as nat), Style::YellowBold),
            (" finding(s):"@, Style::Plain),
        ]);
        push_line(&mut out, l);
        push_line(&mut out, Vec::new());
        let ghost head = lines_view(out@);
        let mut i: usize = 0;
        while i < findings.len()
            invariant
                0 <= i <= findings.len(),
                fv == findings_view(findings@),
                lines_view(out@) == head + entries(fv, i as int, links),
            decreases findings.len() - i,
        {
            assert(fv[i as int] == findings@[i as int]@);
            push_entry(&mut out, i, &findings[i], links);
            assert(head + entries(fv, i + 1, links) =~= head + entries(fv, i as int, links) + entry_lines(
                i as nat,
                fv[i as int],
                links,
            ));
            i += 1;
        }
        if truncated_count > 0 {
            let mut t = String::from_str("... (truncated \u{2014} ");
            t.append(decimal_string(truncated_count as u64).as_str());
            t.append(" more finding(s) not shown, use --max-findings 0 for all)");
            let l = vec![lit("  ", Style::Plain), piece(t, Style::Yellow)];
            assert(line_view(l@) =~= seq![
                ("  "@, Style::Plain),
                (
                    "... (truncated \u{2014} "@ + decimal(truncated_count as nat)
                        + " more finding(s) not shown, use --max-findings 0 for all)"@,
                    Style::Yellow,
                ),
            ]);
            push_line(&mut out, l);
            push_line(&mut out, Vec::new());
        }
    }
    let summary = summary_text(findings, files_scanned);
    let l = vec![lit("  ", Style::Plain), piece(summary, Style::Plain)];
    assert(line_view(l@) =~= seq![("  "@, Style::Plain), (summary_text_spec(fv, files_scanned as nat), Style::Plain)]);
    push_line(&mut out, l);
    push_line(&mut out, Vec::new());
    assert(lines_view(out@) =~= pretty_spec(fv, files_scanned as nat, root_label@, truncated_count as nat, links));
    out
}

} // verus!
