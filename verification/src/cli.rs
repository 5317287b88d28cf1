//! The command-line data model: statuses, output policies, option enums and the
//! per-command input records.

use vstd::prelude::*;

verus! {

/// Exit status of a command.
#[derive(Debug, Clone, Copy, PartialEq, Eq, Structural)]
pub enum CliStatus {
    Success,
    Failure,
    ValidMissing,
    InvalidInput,
}

/// The exit code of the process for a command's status; a command that failed with
/// an error exits with the code of `Failure`.
pub open spec fn exit_code_spec(status: CliStatus) -> u8 {
    match status {
        CliStatus::Success => 0,
        CliStatus::Failure => 1,
        CliStatus::ValidMissing => 10,
        CliStatus::InvalidInput => 11,
    }
}

/// The exit code of the process for a command's status.
pub fn cli_exit_code(status: CliStatus) -> (r: u8)
    ensures
        r == exit_code_spec(status),
{
    match status {
        CliStatus::Success => 0,
        CliStatus::Failure => 1,
        CliStatus::ValidMissing => 10,
        CliStatus::InvalidInput => 11,
    }
}

/// An error that a command reports to its caller, with a human-readable message.
#[derive(Debug, Clone)]
pub struct CliError {
    pub message: String,
}

impl CliError {
    /// An error carrying `message`.
    pub fn new(message: String) -> (e: Self)
        ensures
            e.message@ == message@,
    {
        CliError { message }
    }

    /// An error carrying a copy of `message`.
    pub fn from_str(message: &str) -> (e: Self)
        ensures
            e.message@ == message@,
    {
        CliError { message: crate::text::owned(message) }
    }
}

/// Whether colour is used on standard output and on standard error.
#[derive(Debug, Clone, Copy, PartialEq, Eq, Structural)]
pub struct CliColorPolicy {
    pub stdout: bool,
    pub stderr: bool,
}

/// The `--color` choice given on the command line.
#[derive(Debug, Clone, Copy, PartialEq, Eq, Structural)]
pub enum ColorChoice {
    Auto,
    Always,
    Never,
}

impl CliColorPolicy {
    /// No colour on either stream.
    pub fn never() -> (r: Self)
        ensures
            !r.stdout,
            !r.stderr,
    {
        Self { stdout: false, stderr: false }
    }

    /// The same colour setting on both streams.
    pub fn same(enabled: bool) -> (r: Self)
        ensures
            r.stdout == enabled,
            r.stderr == enabled,
    {
        Self { stdout: enabled, stderr: enabled }
    }

    /// The policy after applying the `--color` choice: `auto` keeps the detected
    /// policy, `always` and `never` force both streams.
    pub fn with_choice(self, choice: ColorChoice) -> (r: Self)
        ensures
            choice == ColorChoice::Auto ==> r == self,
            choice == ColorChoice::Always ==> r == Self::same_spec(true),
            choice == ColorChoice::Never ==> r == Self::same_spec(false),
    {
        match choice {
            ColorChoice::Auto => self,
            ColorChoice::Always => Self::same(true),
            ColorChoice::Never => Self::never(),
        }
    }

    /// The policy with `enabled` on both streams.
    pub open spec fn same_spec(enabled: bool) -> Self {
        CliColorPolicy { stdout: enabled, stderr: enabled }
    }
}

/// Whether progress reporting is shown for embedding setup.
#[derive(Debug, Clone, Copy, PartialEq, Eq, Structural)]
pub struct CliProgressPolicy {
    pub embedding_setup: bool,
}

impl CliProgressPolicy {
    /// No progress reporting.
    pub fn disabled() -> (r: Self)
        ensures
            !r.embedding_setup,
    {
        Self { embedding_setup: false }
    }

    /// Progress reporting for embedding setup exactly when `enabled`.
    pub fn embedding_setup(enabled: bool) -> (r: Self)
        ensures
            r.embedding_setup == enabled,
    {
        Self { embedding_setup: enabled }
    }
}

/// Output formats of `gentufa`.
#[derive(Debug, Clone, Copy, PartialEq, Eq, Structural)]
pub enum GentufaFormat {
    Brackets,
    Blocks,
    Tree,
    Raw,
    Json,
}

/// Output formats of `tersmu`.
#[derive(Debug, Clone, Copy, PartialEq, Eq, Structural)]
pub enum TersmuFormat {
    Json,
    Tree,
    TreeProj,
    Lean3,
}

/// Image types that `gentufa --turtai blocks` can write.
#[derive(Debug, Clone, Copy, PartialEq, Eq, Structural)]
pub enum GentufaImageOutputType {
    Svg,
    Png,
}

/// Output formats of `vlasei`.
#[derive(Debug, Clone, Copy, PartialEq, Eq, Structural)]
pub enum VlaseiFormat {
    Brackets,
    Tree,
    Ipa,
    Raw,
    Json,
}

/// Output formats of `vlatai`.
#[derive(Debug, Clone, Copy, PartialEq, Eq, Structural)]
pub enum VlataiFormat {
    Text,
    Json,
}

/// Output formats of `gimfihi`.
#[derive(Debug, Clone, Copy, PartialEq, Eq, Structural)]
pub enum GimfihiCliFormat {
    Table,
    Json,
}

/// Candidate scorers of `gimfihi`.
#[derive(Debug, Clone, Copy, PartialEq, Eq, Structural)]
pub enum GimfihiCliScorer {
    Classic,
    Phonetic,
}

/// ALINE normalizers of `gimfihi --scorer phonetic`.
#[derive(Debug, Clone, Copy, PartialEq, Eq, Structural)]
pub enum GimfihiCliNormalizer {
    SourceSide,
    CandidateSide,
    Symmetric,
}

/// Which existing words `gimfihi` checks candidates against.
#[derive(Debug, Clone, Copy, PartialEq, Eq, Structural)]
pub enum CliCollisionScope {
    All,
    Official,
    /// No collision check (`none` on the command line).
    Unchecked,
}

/// How stress is marked in rendered phonemes.
#[derive(Debug, Clone, Copy, PartialEq, Eq, Structural)]
pub enum CliStressMark {
    /// Stress is not marked (`none` on the command line).
    Unmarked,
    Acute,
    Caps,
}

/// How glides are marked in rendered phonemes.
#[derive(Debug, Clone, Copy, PartialEq, Eq, Structural)]
pub enum CliGlideMark {
    /// Glides are not marked (`none` on the command line).
    Unmarked,
    Breve,
}

/// Parser phases that tracing can follow.
#[derive(Debug, Clone, Copy, PartialEq, Eq, Structural)]
pub enum CliTracePhase {
    Morphology,
    Syntax,
    All,
}

/// Output formats of `cukta`.
#[derive(Debug, Clone, Copy, PartialEq, Eq, Structural)]
pub enum CuktaCliFormat {
    Markdown,
    Html,
    Raw,
}

/// How sumti places are shown in dictionary definitions.
#[derive(Debug, Clone, Copy, PartialEq, Eq, Structural)]
pub enum CliSumtiPlaces {
    Raw,
    Index,
}

impl CliSumtiPlaces {
    /// Parses the `--sumti-places` value: `raw` or `index`.
    pub fn parse(value: &str) -> (r: Option<Self>)
        ensures
            r == (if value@ == "raw"@ {
                Some(CliSumtiPlaces::Raw)
            } else if value@ == "index"@ {
                Some(CliSumtiPlaces::Index)
            } else {
                None
            }),
    {
        if crate::text::str_eq(value, "raw") {
            Some(CliSumtiPlaces::Raw)
        } else if crate::text::str_eq(value, "index") {
            Some(CliSumtiPlaces::Index)
        } else {
            None
        }
    }
}

/// When `setup` uses a precomputed embedding index.
#[derive(Debug, Clone, Copy, PartialEq, Eq, Structural)]
pub enum CliUsePrecomputed {
    Auto,
    Always,
    Never,
}

/// Glyph repertoire for rendered output.
#[derive(Debug, Clone, Copy, PartialEq, Eq, Structural)]
pub enum GlyphStyle {
    Unicode,
    Ascii,
}

/// The glyph style selected by `--ascii`.
pub fn cli_glyph_style(ascii: bool) -> (r: GlyphStyle)
    ensures
        r == (if ascii {
            GlyphStyle::Ascii
        } else {
            GlyphStyle::Unicode
        }),
{
    if ascii {
        GlyphStyle::Ascii
    } else {
        GlyphStyle::Unicode
    }
}

/// How much detail diagnostics show.
#[derive(Debug, Clone, Copy, PartialEq, Eq, Structural)]
pub enum DiagnosticDetailMode {
    Summary,
    Detailed,
}

/// The diagnostic detail selected by `--detailed-errors`.
pub fn cli_diagnostic_detail(detailed_errors: bool) -> (r: DiagnosticDetailMode)
    ensures
        r == (if detailed_errors {
            DiagnosticDetailMode::Detailed
        } else {
            DiagnosticDetailMode::Summary
        }),
{
    if detailed_errors {
        DiagnosticDetailMode::Detailed
    } else {
        DiagnosticDetailMode::Summary
    }
}

/// Input of `vlasei`, the word segmenter. A file is named by its path text.
#[derive(Debug, Clone)]
pub struct VlaseiInput {
    pub file: Option<String>,
    pub ascii: bool,
    pub detailed_errors: bool,
    pub max_errors: usize,
    pub trace_phase: Option<CliTracePhase>,
    pub trace_limit: Option<usize>,
    pub trace_list: bool,
    pub format: VlaseiFormat,
    pub trace: Option<Option<String>>,
    pub dialect: Option<String>,
    pub indent: Option<usize>,
    pub mark_stress: Option<CliStressMark>,
    pub mark_glides: Option<CliGlideMark>,
    pub show_spans: bool,
    pub decompose_lujvo: bool,
    pub text: Vec<String>,
}

/// Input of `vlatai`, the single-word analyzer.
#[derive(Debug, Clone)]
pub struct VlataiInput {
    pub ascii: bool,
    pub detailed_errors: bool,
    pub format: VlataiFormat,
    pub indent: Option<usize>,
    pub dialect: Option<String>,
    pub mark_stress: Option<CliStressMark>,
    pub mark_glides: Option<CliGlideMark>,
    pub words: Vec<String>,
}

/// Input of the text-only commands (`mulgau`, `zbasu`).
#[derive(Debug, Clone)]
pub struct TextInput {
    pub file: Option<String>,
    pub trace: Option<Option<String>>,
    pub dialect: Option<String>,
    pub indent: Option<usize>,
    pub text: Vec<String>,
}

/// Input of `tersmu`, the semantic graph builder.
#[derive(Debug, Clone)]
pub struct TersmuInput {
    pub file: Option<String>,
    pub format: TersmuFormat,
    pub max_errors: usize,
    pub trace: Option<Option<String>>,
    pub dialect: Option<String>,
    pub show_defs: bool,
    pub story_time: bool,
    pub indent: Option<usize>,
    pub text: Vec<String>,
}

/// Input of `gentufa`, the parser. The output file is named by its path text.
#[derive(Debug, Clone)]
pub struct GentufaInput {
    pub file: Option<String>,
    pub ascii: bool,
    pub detailed_errors: bool,
    pub error_context: usize,
    pub max_errors: usize,
    pub trace_phase: Option<CliTracePhase>,
    pub trace_limit: Option<usize>,
    pub trace_list: bool,
    pub format: GentufaFormat,
    pub trace: Option<Option<String>>,
    pub dialect: Option<String>,
    pub show_defs: bool,
    pub indent: Option<usize>,
    pub mark_stress: Option<CliStressMark>,
    pub mark_glides: Option<CliGlideMark>,
    pub show_spans: bool,
    pub show_refs: bool,
    pub show_elided: bool,
    pub decompose_lujvo: bool,
    pub output_type: Option<GentufaImageOutputType>,
    pub output_file: Option<String>,
    pub text: Vec<String>,
}

/// Input of `cukta`, the reference-grammar browser.
#[derive(Debug, Clone)]
pub struct CuktaInput {
    pub count: Option<usize>,
    pub toc: bool,
    pub section: Option<String>,
    pub example: Option<String>,
    pub valsi: Option<String>,
    pub targets: Vec<String>,
    pub target_sections: bool,
    pub target_paragraphs: bool,
    pub target_examples: bool,
    pub format: CuktaCliFormat,
    pub query: Vec<String>,
}

/// Input of `setup`. Directories are named by their path text.
#[derive(Debug, Clone)]
pub struct SetupInput {
    pub embedding: bool,
    pub force: bool,
    pub use_precomputed: CliUsePrecomputed,
    pub skip_validation: bool,
    pub model: String,
    pub index_dir: Option<String>,
    pub model_dir: Option<String>,
}

} // verus!
