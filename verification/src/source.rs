//! From source text to findings: the text is parsed with `syn`, the syntax tree is handed
//! to a lowering into the library's model, and the checks run on that model.
use vstd::prelude::*;
use crate::analyzer::{file_findings_spec, run_checks_for_file, ScanError};
use crate::finding::{findings_view, Check, Finding};
use crate::syntax::SourceFile;

verus! {

#[verifier::external_type_specification]
#[verifier::external_body]
pub struct ExSynFile(syn::File);

/// What `syn::parse_file` reports for a source text: `None` when it parses as a Rust file,
/// else the text of its error.
pub uninterp spec fn parse_error(source: Seq<char>) -> Option<Seq<char>>;

/// Parses a source text with `syn::parse_file`; the outcome is named by `parse_error`.
#[verifier::external_body]
fn parse_rust(source: &str) -> (r: Result<syn::File, String>)
    ensures
        r is Ok <==> parse_error(source@) is None,
        r matches Err(e) ==> parse_error(source@) == Some(e@),
{
    syn::parse_file(source).map_err(|e| e.to_string())
}

/// `m` is a model that `lower` can return for some syntax tree.
pub open spec fn lowered_by<L: Fn(&syn::File) -> SourceFile>(lower: L, m: SourceFile) -> bool {
    exists|f: &syn::File| #[trigger] lower.ensures((f,), m)
}

/// Parses `source` and lowers its syntax tree with `lower`. The result is an error exactly
/// when the text does not parse (with syn's message); otherwise it is what `lower` returns
/// for the parsed tree.
pub fn parse_and_lower<L: Fn(&syn::File) -> SourceFile>(source: &str, lower: L) -> (r: Result<SourceFile, String>)
    requires
        forall|f: &syn::File| #[trigger] lower.requires((f,)),
    ensures
        r is Err <==> parse_error(source@) is Some,
        r matches Err(e) ==> parse_error(source@) == Some(e@),
        r matches Ok(m) ==> lowered_by(lower, m),
{
    match parse_rust(source) {
        Ok(tree) => {
            let m = lower(&tree);
            assert(lower.ensures((&tree,), m));
            assert(lowered_by(lower, m));
            Ok(m)
        },
        Err(e) => Err(e),
    }
}

/// The findings of `checks` for the source text of the file at `path`, whose path relative
/// to the scan root is `file_label`. The result is `ScanError::Parse` exactly when the text
/// does not parse; otherwise it is the file's findings for the model that `lower` gives of
/// the parsed tree.
pub fn scan_source<C: Check, L: Fn(&syn::File) -> SourceFile>(
    source: &str,
    path: &str,
    file_label: &str,
    checks: &Vec<C>,
    lower: L,
) -> (r: Result<Vec<Finding>, ScanError>)
    requires
        forall|f: &syn::File| #[trigger] lower.requires((f,)),
    ensures
        r is Err <==> parse_error(source@) is Some,
        r matches Err(e) ==> e matches ScanError::Parse { path: p, message }
            && p@ == path@ && parse_error(source@) == Some(message@),
        r matches Ok(v) ==> exists|m: SourceFile|
            lowered_by(lower, m) && #[trigger] file_findings_spec(checks@, &m, source@, file_label@)
                == findings_view(v@),
{
    match parse_and_lower(source, lower) {
        Ok(m) => Ok(run_checks_for_file(&m, source, file_label, checks)),
        Err(message) => Err(ScanError::Parse { path: String::from_str(path), message }),
    }
}

} // verus!
