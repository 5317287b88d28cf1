//! Word classification reports (`vlatai`): the text report of each analysed word and
//! the diagnostic that a word which is not a single word gets.

use crate::text::{chars_of, decimal, decimal_string, push_decimal, push_str};
use vstd::prelude::*;

verus! {

/// How the analysis of one input turned out.
#[derive(Debug, Clone, Copy, PartialEq, Eq, Structural)]
pub enum ValsiAnalysisStatus {
    Valid,
    Invalid,
    NotSingleWord,
}

/// The morphological class of a plain word.
#[derive(Debug, Clone, Copy, PartialEq, Eq, Structural)]
pub enum WordKind {
    Cmavo,
    Gismu,
    Lujvo,
    Fuhivla,
    Cmevla,
}

/// What a piece of a lujvo is.
#[derive(Debug, Clone, Copy, PartialEq, Eq, Structural)]
pub enum ValsiLujvoPartKind {
    Hyphen,
    Rafsi,
}

/// The form of a rafsi.
#[derive(Debug, Clone, Copy, PartialEq, Eq, Structural)]
pub enum ValsiLujvoRafsiKind {
    Cvc,
    Ccv,
    Cvv,
    Long,
    Gismu,
    Fuhivla,
    Cultural,
    Extended,
    Unknown,
}

/// The stage of a fu'ivla.
#[derive(Debug, Clone, Copy, PartialEq, Eq, Structural)]
pub enum ValsiFuhivlaStage {
    Stage3,
    Stage4,
    Unknown,
}

/// One piece of a lujvo.
#[derive(Debug, Clone)]
pub struct ValsiLujvoPart {
    pub kind: ValsiLujvoPartKind,
    pub text: String,
    pub rafsi_kind: Option<ValsiLujvoRafsiKind>,
}

/// The classification of a plain word. `phonemes` are canonical; `phonemes_rendered`
/// holds them spelled for output when they could be read as canonical phonemes.
#[derive(Debug, Clone)]
pub struct PlainWordClassification {
    pub category: WordKind,
    pub phonemes: String,
    pub phonemes_rendered: Option<String>,
    pub selmaho: Option<String>,
    pub split: Option<String>,
    pub parts: Vec<ValsiLujvoPart>,
    pub stage: Option<ValsiFuhivlaStage>,
}

/// The classification of a valid input: a plain word or one of the compound forms.
#[derive(Debug)]
pub enum ValsiClassification {
    PlainWord(PlainWordClassification),
    QuotedWord { marker: PlainWordClassification, quoted: PlainWordClassification },
    DelimitedNonLojbanQuote { marker: PlainWordClassification, delimiter: String },
    QuotedWords { marker: PlainWordClassification, quoted_word_count: usize },
    DelimitedWordQuote { marker_text: String },
    LerfuWord { base: Box<ValsiClassification>, suffix: PlainWordClassification },
    ZeiCompound {
        left: Box<ValsiClassification>,
        link: PlainWordClassification,
        right: PlainWordClassification,
    },
}

/// A lujvo carries its split and a fu'ivla its stage.
pub open spec fn plain_word_wf(w: PlainWordClassification) -> bool {
    (w.category == WordKind::Lujvo ==> w.split is Some) && (w.category == WordKind::Fuhivla
        ==> w.stage is Some)
}

/// Every plain word in the classification is well formed.
pub open spec fn classification_wf(c: ValsiClassification) -> bool
    decreases c,
{
    match c {
        ValsiClassification::PlainWord(w) => plain_word_wf(w),
        ValsiClassification::QuotedWord { marker, quoted } => plain_word_wf(marker)
            && plain_word_wf(quoted),
        ValsiClassification::DelimitedNonLojbanQuote { marker, .. } => plain_word_wf(marker),
        ValsiClassification::QuotedWords { marker, .. } => plain_word_wf(marker),
        ValsiClassification::DelimitedWordQuote { .. } => true,
        ValsiClassification::LerfuWord { base, suffix } => classification_wf(*base)
            && plain_word_wf(suffix),
        ValsiClassification::ZeiCompound { left, link, right } => classification_wf(*left)
            && plain_word_wf(link) && plain_word_wf(right),
    }
}

/// The name of a rafsi form.
pub open spec fn rafsi_kind_spec(kind: ValsiLujvoRafsiKind) -> Seq<char> {
    match kind {
        ValsiLujvoRafsiKind::Cvc => "cvc-rafsi"@,
        ValsiLujvoRafsiKind::Ccv => "ccv-rafsi"@,
        ValsiLujvoRafsiKind::Cvv => "cvv-rafsi"@,
        ValsiLujvoRafsiKind::Long => "long-rafsi"@,
        ValsiLujvoRafsiKind::Gismu => "gismu"@,
        ValsiLujvoRafsiKind::Fuhivla => "fu'ivla"@,
        ValsiLujvoRafsiKind::Cultural => "cultural-rafsi"@,
        ValsiLujvoRafsiKind::Extended => "extended-rafsi"@,
        ValsiLujvoRafsiKind::Unknown => "unknown-rafsi"@,
    }
}

/// The name of a rafsi form.
pub fn vlatai_rafsi_kind(kind: ValsiLujvoRafsiKind) -> (r: &'static str)
    ensures
        r@ == rafsi_kind_spec(kind),
{
    match kind {
        ValsiLujvoRafsiKind::Cvc => "cvc-rafsi",
        ValsiLujvoRafsiKind::Ccv => "ccv-rafsi",
        ValsiLujvoRafsiKind::Cvv => "cvv-rafsi",
        ValsiLujvoRafsiKind::Long => "long-rafsi",
        ValsiLujvoRafsiKind::Gismu => "gismu",
        ValsiLujvoRafsiKind::Fuhivla => "fu'ivla",
        ValsiLujvoRafsiKind::Cultural => "cultural-rafsi",
        ValsiLujvoRafsiKind::Extended => "extended-rafsi",
        ValsiLujvoRafsiKind::Unknown => "unknown-rafsi",
    }
}

/// The rafsi form that a name in a word report stands for, read back from the name.
pub open spec fn rafsi_kind_named(name: Seq<char>) -> Option<ValsiLujvoRafsiKind> {
    if name == "cvc-rafsi"@ {
        Some(ValsiLujvoRafsiKind::Cvc)
    } else if name == "ccv-rafsi"@ {
        Some(ValsiLujvoRafsiKind::Ccv)
    } else if name == "cvv-rafsi"@ {
        Some(ValsiLujvoRafsiKind::Cvv)
    } else if name == "long-rafsi"@ {
        Some(ValsiLujvoRafsiKind::Long)
    } else if name == "gismu"@ {
        Some(ValsiLujvoRafsiKind::Gismu)
    } else if name == "fu'ivla"@ {
        Some(ValsiLujvoRafsiKind::Fuhivla)
    } else if name == "cultural-rafsi"@ {
        Some(ValsiLujvoRafsiKind::Cultural)
    } else if name == "extended-rafsi"@ {
        Some(ValsiLujvoRafsiKind::Extended)
    } else if name == "unknown-rafsi"@ {
        Some(ValsiLujvoRafsiKind::Unknown)
    } else {
        None
    }
}

/// Each rafsi form is reported under its own name: the name that a word report gives a
/// form reads back as that form, so no two forms share a name.
pub proof fn law_rafsi_names_read_back(kind: ValsiLujvoRafsiKind, other: ValsiLujvoRafsiKind)
    ensures
        rafsi_kind_named(rafsi_kind_spec(kind)) == Some(kind),
        rafsi_kind_spec(kind) == rafsi_kind_spec(other) ==> kind == other,
{
    lemma_rafsi_name_reads_back(kind);
    lemma_rafsi_name_reads_back(other);
}

proof fn lemma_rafsi_name_reads_back(kind: ValsiLujvoRafsiKind)
    ensures
        rafsi_kind_named(rafsi_kind_spec(kind)) == Some(kind),
{
    reveal_strlit("cvc-rafsi");
    reveal_strlit("ccv-rafsi");
    reveal_strlit("cvv-rafsi");
    reveal_strlit("long-rafsi");
    reveal_strlit("gismu");
    reveal_strlit("fu'ivla");
    reveal_strlit("cultural-rafsi");
    reveal_strlit("extended-rafsi");
    reveal_strlit("unknown-rafsi");
    let n = rafsi_kind_spec(kind);
    assert("cvc-rafsi"@.len() == 9 && "ccv-rafsi"@.len() == 9 && "cvv-rafsi"@.len() == 9);
    assert("long-rafsi"@.len() == 10 && "gismu"@.len() == 5 && "fu'ivla"@.len() == 7);
    assert("cultural-rafsi"@.len() == 14 && "extended-rafsi"@.len() == 14);
    assert("unknown-rafsi"@.len() == 13);
    match kind {
        ValsiLujvoRafsiKind::Ccv => {
            assert(n[1] != "cvc-rafsi"@[1]);
        },
        ValsiLujvoRafsiKind::Cvv => {
            assert(n[2] != "cvc-rafsi"@[2]);
            assert(n[1] != "ccv-rafsi"@[1]);
        },
        ValsiLujvoRafsiKind::Extended => {
            assert(n[0] != "cultural-rafsi"@[0]);
        },
        _ => {},
    }
}

/// Two reports of the same rafsi with different forms differ: the report tells the
/// forms apart.
pub proof fn law_rafsi_reports_tell_forms_apart(p: ValsiLujvoPart, q: ValsiLujvoPart)
    requires
        p.kind == ValsiLujvoPartKind::Rafsi,
        q.kind == ValsiLujvoPartKind::Rafsi,
        p.text@ == q.text@,
        p.rafsi_kind is Some,
        q.rafsi_kind is Some,
        p.rafsi_kind != q.rafsi_kind,
    ensures
        lujvo_part_spec(p) != lujvo_part_spec(q),
{
    let a = p.rafsi_kind.unwrap();
    let b = q.rafsi_kind.unwrap();
    law_rafsi_names_read_back(a, b);
    let head = "rafsi: "@ + p.text@ + " ("@;
    let x = rafsi_kind_spec(a);
    let y = rafsi_kind_spec(b);
    assert(lujvo_part_spec(p) == head + x + ")"@);
    assert(lujvo_part_spec(q) == head + y + ")"@);
    if lujvo_part_spec(p) == lujvo_part_spec(q) {
        reveal_strlit(")");
        let whole = lujvo_part_spec(p);
        assert(x.len() == y.len());
        assert(whole.subrange(head.len() as int, (head.len() + x.len()) as int) =~= x);
        assert((head + y + ")"@).subrange(head.len() as int, (head.len() + y.len()) as int) =~= y);
        assert(x == y);
    }
}

/// The name of a fu'ivla stage.
pub open spec fn fuhivla_stage_spec(stage: ValsiFuhivlaStage) -> Seq<char> {
    match stage {
        ValsiFuhivlaStage::Stage3 => "stage-3"@,
        ValsiFuhivlaStage::Stage4 => "stage-4"@,
        ValsiFuhivlaStage::Unknown => "unknown"@,
    }
}

/// The name of a fu'ivla stage.
pub fn vlatai_fuhivla_stage(stage: ValsiFuhivlaStage) -> (r: &'static str)
    ensures
        r@ == fuhivla_stage_spec(stage),
{
    match stage {
        ValsiFuhivlaStage::Stage3 => "stage-3",
        ValsiFuhivlaStage::Stage4 => "stage-4",
        ValsiFuhivlaStage::Unknown => "unknown",
    }
}

/// The word a status is reported as.
pub open spec fn status_spec(status: ValsiAnalysisStatus) -> Seq<char> {
    match status {
        ValsiAnalysisStatus::Valid => "valid"@,
        ValsiAnalysisStatus::Invalid => "invalid"@,
        ValsiAnalysisStatus::NotSingleWord => "not-single-word"@,
    }
}

/// The word a status is reported as.
pub fn vlatai_status(status: ValsiAnalysisStatus) -> (r: &'static str)
    ensures
        r@ == status_spec(status),
{
    match status {
        ValsiAnalysisStatus::Valid => "valid",
        ValsiAnalysisStatus::Invalid => "invalid",
        ValsiAnalysisStatus::NotSingleWord => "not-single-word",
    }
}

/// The source label of the input at `index`: its position among the arguments,
/// counted from one.
pub open spec fn source_label_spec(index: nat) -> Seq<char> {
    "<arg:"@ + decimal(index + 1) + ">"@
}

/// The source label of the input at `index`.
pub fn vlatai_source_label(index: usize) -> (r: String)
    requires
        index < usize::MAX,
    ensures
        r@ == source_label_spec(index as nat),
{
    let mut out = crate::text::owned("<arg:");
    push_decimal(&mut out, (index + 1) as u64);
    push_str(&mut out, ">");
    out
}

/// A lujvo piece as listed: a hyphen, or a rafsi with its form.
pub open spec fn lujvo_part_spec(part: ValsiLujvoPart) -> Seq<char> {
    match part.kind {
        ValsiLujvoPartKind::Hyphen => "hyphen: "@ + part.text@,
        ValsiLujvoPartKind::Rafsi => "rafsi: "@ + part.text@ + " ("@ + match part.rafsi_kind {
            Some(k) => rafsi_kind_spec(k),
            None => "unknown-rafsi"@,
        } + ")"@,
    }
}

/// A lujvo piece as listed.
pub fn vlatai_lujvo_part_text(part: &ValsiLujvoPart) -> (r: String)
    ensures
        r@ == lujvo_part_spec(*part),
{
    match part.kind {
        ValsiLujvoPartKind::Hyphen => crate::text::concat2("hyphen: ", part.text.as_str()),
        ValsiLujvoPartKind::Rafsi => {
            let kind = match part.rafsi_kind {
                Some(k) => vlatai_rafsi_kind(k),
                None => "unknown-rafsi",
            };
            let mut out = crate::text::concat2("rafsi: ", part.text.as_str());
            push_str(&mut out, " (");
            push_str(&mut out, kind);
            push_str(&mut out, ")");
            out
        },
    }
}

/// Phonemes as shown: spelled for output when they could be read, else as given.
pub open spec fn phonemes_spec(phonemes: Seq<char>, rendered: Option<Seq<char>>) -> Seq<char> {
    match rendered {
        Some(r) => r,
        None => phonemes,
    }
}

/// Phonemes as shown; `rendered` is their spelling for output, when the canonical
/// phonemes could be read.
pub fn render_vlatai_phonemes(phonemes: &str, rendered: &Option<String>) -> (r: String)
    ensures
        r@ == phonemes_spec(
            phonemes@,
            match rendered {
                Some(s) => Some(s@),
                None => None,
            },
        ),
{
    match rendered {
        Some(s) => s.clone(),
        None => crate::text::owned(phonemes),
    }
}

/// One report line: prefix, label, value and a newline.
pub open spec fn line_spec(prefix: Seq<char>, label: Seq<char>, value: Seq<char>) -> Seq<char> {
    prefix + label + value + seq!['\n']
}

fn push_line(out: &mut String, prefix: &str, label: &str, value: &str)
    ensures
        final(out)@ == old(out)@ + line_spec(prefix@, label@, value@),
{
    push_str(out, prefix);
    push_str(out, label);
    push_str(out, value);
    out.push('\n');
    assert(out@ =~= old(out)@ + line_spec(prefix@, label@, value@));
}

/// The listed parts of a lujvo, each on a line of its own.
pub open spec fn parts_text(prefix: Seq<char>, parts: Seq<ValsiLujvoPart>) -> Seq<char>
    decreases parts.len(),
{
    if parts.len() == 0 {
        seq![]
    } else {
        parts_text(prefix, parts.drop_last()) + line_spec(
            prefix,
            "  - "@,
            lujvo_part_spec(parts.last()),
        )
    }
}

/// The shown phonemes of a plain word.
pub open spec fn word_phonemes(w: PlainWordClassification) -> Seq<char> {
    phonemes_spec(
        w.phonemes@,
        match w.phonemes_rendered {
            Some(s) => Some(s@),
            None => None,
        },
    )
}

/// The report lines of a plain word, each starting with `prefix`.
pub open spec fn plain_word_text(w: PlainWordClassification, prefix: Seq<char>) -> Seq<char> {
    let ph = line_spec(prefix, "phonemes: "@, word_phonemes(w));
    match w.category {
        WordKind::Cmavo => line_spec(prefix, "category: "@, "cmavo"@) + ph + match w.selmaho {
            Some(s) => line_spec(prefix, "selma'o: "@, s@),
            None => seq![],
        },
        WordKind::Gismu => line_spec(prefix, "category: "@, "gismu"@) + ph,
        WordKind::Lujvo => line_spec(prefix, "category: "@, "lujvo"@) + ph + line_spec(
            prefix,
            "split: "@,
            match w.split {
                Some(s) => s@,
                None => seq![],
            },
        ) + line_spec(prefix, "parts:"@, seq![]) + parts_text(prefix, w.parts@),
        WordKind::Fuhivla => line_spec(prefix, "category: "@, "fu'ivla"@) + ph + line_spec(
            prefix,
            "stage: "@,
            match w.stage {
                Some(s) => fuhivla_stage_spec(s),
                None => seq![],
            },
        ),
        WordKind::Cmevla => line_spec(prefix, "category: "@, "cmevla"@) + ph,
    }
}

/// Appends the report lines of a plain word.
pub fn render_plain_word_classification_text(
    out: &mut String,
    classification: &PlainWordClassification,
    prefix: &str,
)
    requires
        plain_word_wf(*classification),
    ensures
        final(out)@ == old(out)@ + plain_word_text(*classification, prefix@),
{
    let w = classification;
    let phonemes = render_vlatai_phonemes(w.phonemes.as_str(), &w.phonemes_rendered);
    match w.category {
        WordKind::Cmavo => {
            push_line(out, prefix, "category: ", "cmavo");
            push_line(out, prefix, "phonemes: ", phonemes.as_str());
            match &w.selmaho {
                Some(s) => push_line(out, prefix, "selma'o: ", s.as_str()),
                None => {},
            }
        },
        WordKind::Gismu => {
            push_line(out, prefix, "category: ", "gismu");
            push_line(out, prefix, "phonemes: ", phonemes.as_str());
        },
        WordKind::Lujvo => {
            push_line(out, prefix, "category: ", "lujvo");
            push_line(out, prefix, "phonemes: ", phonemes.as_str());
            let split = match &w.split {
                Some(s) => s,
                None => {
                    return ;
                },
            };
            push_line(out, prefix, "split: ", split.as_str());
            push_str(out, prefix);
            push_str(out, "parts:");
            out.push('\n');
            let ghost head = out@;
            let mut i: usize = 0;
            while i < w.parts.len()
                invariant
                    i <= w.parts.len(),
                    out@ == head + parts_text(prefix@, w.parts@.subrange(0, i as int)),
                decreases w.parts.len() - i,
            {
                let text = vlatai_lujvo_part_text(&w.parts[i]);
                push_line(out, prefix, "  - ", text.as_str());
                proof {
                    let s = w.parts@.subrange(0, i + 1);
                    assert(s.drop_last() =~= w.parts@.subrange(0, i as int));
                }
                i = i + 1;
            }
            assert(w.parts@.subrange(0, w.parts.len() as int) =~= w.parts@);
        },
        WordKind::Fuhivla => {
            push_line(out, prefix, "category: ", "fu'ivla");
            push_line(out, prefix, "phonemes: ", phonemes.as_str());
            let stage = match w.stage {
                Some(s) => s,
                None => {
                    return ;
                },
            };
            push_line(out, prefix, "stage: ", vlatai_fuhivla_stage(stage));
        },
        WordKind::Cmevla => {
            push_line(out, prefix, "category: ", "cmevla");
            push_line(out, prefix, "phonemes: ", phonemes.as_str());
        },
    }
}

/// The report lines of a classification; the lines of the classification itself start
/// with `prefix`, those of its parts with the part's name.
pub open spec fn classification_text(c: ValsiClassification, prefix: Seq<char>) -> Seq<char>
    decreases c,
{
    match c {
        ValsiClassification::PlainWord(w) => plain_word_text(w, prefix),
        ValsiClassification::QuotedWord { marker, quoted } => line_spec(
            prefix,
            "category: "@,
            "quoted-word"@,
        ) + plain_word_text(marker, "marker "@) + plain_word_text(quoted, "quoted "@),
        ValsiClassification::DelimitedNonLojbanQuote { marker, delimiter } => line_spec(
            prefix,
            "category: "@,
            "delimited-non-lojban-quote"@,
        ) + plain_word_text(marker, "marker "@) + line_spec(prefix, "delimiter: "@, delimiter@),
        ValsiClassification::QuotedWords { marker, quoted_word_count } => line_spec(
            prefix,
            "category: "@,
            "quoted-words"@,
        ) + plain_word_text(marker, "marker "@) + line_spec(
            prefix,
            "quoted word count: "@,
            decimal(quoted_word_count as nat),
        ),
        ValsiClassification::DelimitedWordQuote { marker_text } => line_spec(
            prefix,
            "category: "@,
            "delimited-word-quote"@,
        ) + line_spec(prefix, "marker: "@, marker_text@),
        ValsiClassification::LerfuWord { base, suffix } => line_spec(
            prefix,
            "category: "@,
            "lerfu-word"@,
        ) + classification_text(*base, "base "@) + plain_word_text(suffix, "suffix "@),
        ValsiClassification::ZeiCompound { left, link, right } => line_spec(
            prefix,
            "category: "@,
            "zei-compound"@,
        ) + classification_text(*left, "left "@) + plain_word_text(link, "link "@)
            + plain_word_text(right, "right "@),
    }
}

/// Appends the report lines of a classification, its own lines starting with `prefix`.
#[verifier::rlimit(40)]
pub fn render_vlatai_classification_text_with_prefix(
    out: &mut String,
    classification: &ValsiClassification,
    prefix: &str,
)
    requires
        classification_wf(*classification),
    ensures
        final(out)@ == old(out)@ + classification_text(*classification, prefix@),
    decreases classification,
{
    match classification {
        ValsiClassification::PlainWord(w) => {
            render_plain_word_classification_text(out, w, prefix);
        },
        ValsiClassification::QuotedWord { marker, quoted } => {
            push_line(out, prefix, "category: ", "quoted-word");
            render_plain_word_classification_text(out, marker, "marker ");
            render_plain_word_classification_text(out, quoted, "quoted ");
        },
        ValsiClassification::DelimitedNonLojbanQuote { marker, delimiter } => {
            push_line(out, prefix, "category: ", "delimited-non-lojban-quote");
            render_plain_word_classification_text(out, marker, "marker ");
            push_line(out, prefix, "delimiter: ", delimiter.as_str());
        },
        ValsiClassification::QuotedWords { marker, quoted_word_count } => {
            push_line(out, prefix, "category: ", "quoted-words");
            render_plain_word_classification_text(out, marker, "marker ");
            let count = decimal_string(*quoted_word_count as u64);
            push_line(out, prefix, "quoted word count: ", count.as_str());
        },
        ValsiClassification::DelimitedWordQuote { marker_text } => {
            push_line(out, prefix, "category: ", "delimited-word-quote");
            push_line(out, prefix, "marker: ", marker_text.as_str());
        },
        ValsiClassification::LerfuWord { base, suffix } => {
            push_line(out, prefix, "category: ", "lerfu-word");
            render_vlatai_classification_text_with_prefix(out, &**base, "base ");
            render_plain_word_classification_text(out, suffix, "suffix ");
        },
        ValsiClassification::ZeiCompound { left, link, right } => {
            push_line(out, prefix, "category: ", "zei-compound");
            render_vlatai_classification_text_with_prefix(out, &**left, "left ");
            render_plain_word_classification_text(out, link, "link ");
            render_plain_word_classification_text(out, right, "right ");
        },
    }
    assert(out@ =~= old(out)@ + classification_text(*classification, prefix@));
}

/// Appends the report lines of a classification.
pub fn render_vlatai_classification_text(out: &mut String, classification: &ValsiClassification)
    requires
        classification_wf(*classification),
    ensures
        final(out)@ == old(out)@ + classification_text(*classification, ""@),
{
    render_vlatai_classification_text_with_prefix(out, classification, "");
}

/// The analysis of one input, as the report reads it: the input, the status, its
/// rendered diagnostics, the classification of a valid word, and the bracketed words
/// of an input that is not a single word.
#[derive(Debug)]
pub struct ValsiAnalysis {
    pub input: String,
    pub status: ValsiAnalysisStatus,
    pub classification: Option<ValsiClassification>,
    pub diagnostics_text: String,
    pub words_text: String,
}

/// A valid analysis carries a well-formed classification.
pub open spec fn analysis_wf(a: ValsiAnalysis) -> bool {
    a.status == ValsiAnalysisStatus::Valid ==> match a.classification {
        Some(c) => classification_wf(c),
        None => false,
    }
}

/// The report of one analysis.
pub open spec fn analysis_text(a: ValsiAnalysis) -> Seq<char> {
    line_spec(""@, "valsi: "@, a.input@) + line_spec(""@, "status: "@, status_spec(a.status))
        + a.diagnostics_text@ + match a.status {
        ValsiAnalysisStatus::Valid => match a.classification {
            Some(c) => classification_text(c, ""@),
            None => seq![],
        },
        ValsiAnalysisStatus::NotSingleWord => line_spec(""@, "words: "@, a.words_text@),
        ValsiAnalysisStatus::Invalid => seq![],
    }
}

/// The reports of all analyses, separated by empty lines.
pub open spec fn vlatai_text(analyses: Seq<ValsiAnalysis>) -> Seq<char>
    decreases analyses.len(),
{
    if analyses.len() == 0 {
        seq![]
    } else if analyses.len() == 1 {
        analysis_text(analyses[0])
    } else {
        vlatai_text(analyses.drop_last()).push('\n') + analysis_text(analyses.last())
    }
}

/// The text report of all analyses.
pub fn render_vlatai_text(analyses: &Vec<ValsiAnalysis>) -> (r: String)
    requires
        forall|i: int| 0 <= i < analyses@.len() ==> analysis_wf(#[trigger] analyses@[i]),
    ensures
        r@ == vlatai_text(analyses@),
{
    let mut out = String::new();
    let mut i: usize = 0;
    while i < analyses.len()
        invariant
            i <= analyses.len(),
            forall|j: int| 0 <= j < analyses@.len() ==> analysis_wf(#[trigger] analyses@[j]),
            out@ == vlatai_text(analyses@.subrange(0, i as int)),
        decreases analyses.len() - i,
    {
        let ghost before = out@;
        if i > 0 {
            out.push('\n');
        }
        let a = &analyses[i];
        push_line(&mut out, "", "valsi: ", a.input.as_str());
        push_line(&mut out, "", "status: ", vlatai_status(a.status));
        push_str(&mut out, a.diagnostics_text.as_str());
        assert(analysis_wf(analyses@[i as int]));
        match a.status {
            ValsiAnalysisStatus::Valid => {
                match &a.classification {
                    Some(c) => render_vlatai_classification_text(&mut out, c),
                    None => {},
                }
            },
            ValsiAnalysisStatus::NotSingleWord => {
                push_line(&mut out, "", "words: ", a.words_text.as_str());
            },
            ValsiAnalysisStatus::Invalid => {},
        }
        proof {
            let s = analyses@.subrange(0, i + 1);
            assert(s.drop_last() =~= analyses@.subrange(0, i as int));
            if i == 0 {
                assert(out@ =~= analysis_text(analyses@[0]));
            } else {
                assert(out@ =~= before.push('\n') + analysis_text(analyses@[i as int]));
            }
        }
        i = i + 1;
    }
    assert(analyses@.subrange(0, analyses.len() as int) =~= analyses@);
    out
}

/// The diagnostic of an input that is not a single word: an error of the morphology
/// phase with this code, message and label, spanning the whole input (`span_end` is
/// its length in characters), and a note with the word count.
#[derive(Debug, Clone)]
pub struct NotSingleWordDiagnostic {
    pub code: String,
    pub message: String,
    pub label: String,
    pub note: String,
    pub span_end: usize,
}

/// The diagnostic of an input that parsed as `word_count` words, not one.
pub fn vlatai_not_single_word_diagnostic(source: &str, word_count: usize) -> (r:
    NotSingleWordDiagnostic)
    ensures
        r.code@ == "vlatai.not-single-word"@,
        r.message@ == (if word_count == 0 {
            "input did not parse as one word"@
        } else {
            "input parsed as multiple words"@
        }),
        r.label@ == (if word_count == 0 {
            "parsed zero words"@
        } else {
            "parsed more than one word"@
        }),
        r.note@ == "parsed word count: "@ + decimal(word_count as nat),
        r.span_end == source@.len(),
{
    let char_end = chars_of(source).len();
    let (message, label) = if word_count == 0 {
        ("input did not parse as one word", "parsed zero words")
    } else {
        ("input parsed as multiple words", "parsed more than one word")
    };
    let mut note = crate::text::owned("parsed word count: ");
    push_decimal(&mut note, word_count as u64);
    NotSingleWordDiagnostic {
        code: crate::text::owned("vlatai.not-single-word"),
        message: crate::text::owned(message),
        label: crate::text::owned(label),
        note,
        span_end: char_end,
    }
}

/// `d` is the diagnostic of an input `source` that parsed as `word_count` words, not one.
pub open spec fn is_not_single_word(d: NotSingleWordDiagnostic, source: Seq<char>, word_count: usize) -> bool {
    &&& d.code@ == "vlatai.not-single-word"@
    &&& d.message@ == (if word_count == 0 {
        "input did not parse as one word"@
    } else {
        "input parsed as multiple words"@
    })
    &&& d.label@ == (if word_count == 0 {
        "parsed zero words"@
    } else {
        "parsed more than one word"@
    })
    &&& d.note@ == "parsed word count: "@ + decimal(word_count as nat)
    &&& d.span_end == source.len()
}

/// A diagnostic of an analysis: one reported by the analyser (a warning, or the
/// error of an invalid input), or the not-single-word diagnostic.
#[derive(Debug)]
pub enum VlataiDiagnostic<D> {
    Reported(D),
    NotSingleWord(NotSingleWordDiagnostic),
}

/// The diagnostics of an analysis: the diagnostics of its warnings in their order,
/// then, for an invalid input, the diagnostic of its error, and for an input that is
/// not a single word, the not-single-word diagnostic; nothing more for a valid word.
pub fn vlatai_diagnostics<D>(
    warnings: Vec<D>,
    status: ValsiAnalysisStatus,
    error: Option<D>,
    source: &str,
    word_count: usize,
) -> (r: Vec<VlataiDiagnostic<D>>)
    requires
        status == ValsiAnalysisStatus::Invalid ==> error is Some,
    ensures
        r@.len() == warnings@.len() + if status == ValsiAnalysisStatus::Valid {
            0int
        } else {
            1int
        },
        forall|i: int|
            0 <= i < warnings@.len() ==> #[trigger] r@[i] == VlataiDiagnostic::Reported(
                warnings@[i],
            ),
        status == ValsiAnalysisStatus::Invalid ==> r@.last() == VlataiDiagnostic::Reported(
            error.unwrap(),
        ),
        status == ValsiAnalysisStatus::NotSingleWord ==> (r@.last() matches VlataiDiagnostic::<
            D,
        >::NotSingleWord(d) && is_not_single_word(d, source@, word_count)),
{
    let ghost given = warnings@;
    let mut rest = warnings;
    let mut out: Vec<VlataiDiagnostic<D>> = Vec::new();
    while rest.len() > 0
        invariant
            out@.len() + rest@.len() == given.len(),
            rest@ == given.subrange(out@.len() as int, given.len() as int),
            forall|i: int|
                0 <= i < out@.len() ==> #[trigger] out@[i] == VlataiDiagnostic::Reported(given[i]),
        decreases rest@.len(),
    {
        let ghost k: int = out@.len() as int;
        let w = rest.remove(0);
        out.push(VlataiDiagnostic::Reported(w));
        proof {
            assert(rest@ =~= given.subrange(k + 1, given.len() as int));
        }
    }
    match status {
        ValsiAnalysisStatus::Valid => {},
        ValsiAnalysisStatus::Invalid => {
            match error {
                Some(e) => out.push(VlataiDiagnostic::Reported(e)),
                None => {},
            }
        },
        ValsiAnalysisStatus::NotSingleWord => {
            out.push(
                VlataiDiagnostic::NotSingleWord(
                    vlatai_not_single_word_diagnostic(source, word_count),
                ),
            );
        },
    }
    out
}

} // verus!
