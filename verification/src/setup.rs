//! The `setup` command: which tasks it runs, the detail line of its progress, and the
//! report it prints when done.

use crate::cli::{CliError, SetupInput};
use crate::text::{decimal, push_decimal, push_str};
use crate::units::{human_bytes, human_bytes_spec};
use vstd::prelude::*;

verus! {

/// `setup` has one task, the embedding setup, which must be asked for.
pub fn check_setup_tasks(input: &SetupInput) -> (r: Result<(), CliError>)
    ensures
        r is Ok <==> input.embedding,
        r matches Err(e) ==> e.message@
            == "Choose at least one setup task, e.g. `jbotci setup --embedding`."@,
{
    if !input.embedding {
        return Err(
            CliError::from_str("Choose at least one setup task, e.g. `jbotci setup --embedding`."),
        );
    }
    Ok(())
}

/// A progress report of the embedding setup.
#[derive(Debug, Clone)]
pub struct SetupProgress {
    pub kind: String,
    pub label: String,
    pub detail: String,
    pub loaded: Option<u64>,
    pub total: Option<u64>,
}

/// The detail shown beside a progress report: bytes for downloads and validation, rows
/// otherwise, when both counts are known; else the detail, or the label when there is
/// no detail, or `unknown` when the label is empty too. It is never empty.
pub open spec fn progress_detail_spec(p: SetupProgress) -> Seq<char> {
    match (p.loaded, p.total) {
        (Some(l), Some(t)) => if p.kind@ == "download"@ || p.kind@ == "validate"@ {
            human_bytes_spec(l as nat) + " / "@ + human_bytes_spec(t as nat)
        } else {
            decimal(l as nat) + "/"@ + decimal(t as nat) + " rows"@
        },
        _ => if p.detail@.len() > 0 {
            p.detail@
        } else if p.label@.len() > 0 {
            p.label@
        } else {
            "unknown"@
        },
    }
}

/// The detail shown beside a progress report.
pub fn cli_setup_progress_detail(progress: &SetupProgress) -> (r: String)
    ensures
        r@ == progress_detail_spec(*progress),
        r@.len() > 0,
{
    proof {
        reveal_strlit(" / ");
        reveal_strlit(" rows");
        reveal_strlit("unknown");
    }
    match (progress.loaded, progress.total) {
        (Some(loaded), Some(total)) => {
            let kind = progress.kind.as_str();
            if crate::text::str_eq(kind, "download") || crate::text::str_eq(kind, "validate") {
                let mut out = human_bytes(loaded);
                push_str(&mut out, " / ");
                push_str(&mut out, human_bytes(total).as_str());
                out
            } else {
                let mut out = String::new();
                push_decimal(&mut out, loaded);
                push_str(&mut out, "/");
                push_decimal(&mut out, total);
                push_str(&mut out, " rows");
                assert(out@ =~= decimal(loaded as nat) + "/"@ + decimal(total as nat) + " rows"@);
                out
            }
        },
        _ => {
            if !progress.detail.as_str().is_empty() {
                progress.detail.clone()
            } else if !progress.label.as_str().is_empty() {
                progress.label.clone()
            } else {
                crate::text::owned("unknown")
            }
        },
    }
}

/// What the embedding setup reports when it is done; the model path is absent when the
/// model was not checked.
#[derive(Debug, Clone)]
pub struct SetupReport {
    pub model_path: Option<String>,
    pub index_root: String,
    pub pack_id: String,
    pub index_source: String,
    pub dictionary_rows: usize,
    pub cll_rows: usize,
}

/// The message printed when the embedding setup is done.
pub open spec fn setup_message_spec(r: SetupReport) -> Seq<char> {
    "Embedding setup complete.\nmodel: "@ + match r.model_path {
        Some(p) => p@,
        None => "not checked"@,
    } + "\nindex: "@ + r.index_root@ + "\npack: "@ + r.pack_id@ + "\nsource: "@
        + r.index_source@ + "\ndictionary rows: "@ + decimal(r.dictionary_rows as nat)
        + "\nCLL rows: "@ + decimal(r.cll_rows as nat)
}

/// The message printed when the embedding setup is done.
pub fn setup_complete_message(report: &SetupReport) -> (r: String)
    ensures
        r@ == setup_message_spec(*report),
{
    let mut out = crate::text::owned("Embedding setup complete.\nmodel: ");
    match &report.model_path {
        Some(p) => push_str(&mut out, p.as_str()),
        None => push_str(&mut out, "not checked"),
    }
    push_str(&mut out, "\nindex: ");
    push_str(&mut out, report.index_root.as_str());
    push_str(&mut out, "\npack: ");
    push_str(&mut out, report.pack_id.as_str());
    push_str(&mut out, "\nsource: ");
    push_str(&mut out, report.index_source.as_str());
    push_str(&mut out, "\ndictionary rows: ");
    push_decimal(&mut out, report.dictionary_rows as u64);
    push_str(&mut out, "\nCLL rows: ");
    push_decimal(&mut out, report.cll_rows as u64);
    out
}

} // verus!
