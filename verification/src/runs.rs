//! The decisions that the commands take around their analyses: where input text comes
//! from, how a source is named, which trace filters are listed, what `vlasei` and
//! `gentufa` do before they analyse, and where `gentufa` output goes.

use crate::cli::{
    cli_glyph_style, CliError, CliStatus, CliTracePhase, GentufaInput, GlyphStyle, VlaseiInput,
};
use crate::text::{concat3, join_spec, join_strings, push_str, views};
use crate::trace::{
    normalize_trace_text_input, phase_argument, trace_options, trace_phase_argument, trace_settings,
    trace_rules_failure, trace_value_is_text, validate_trace_controls, CliTraceValidation,
    TraceOptions, TraceVocabulary,
};
use crate::validate::{
    first_failure, gentufa_options_failure, validate_gentufa_options, validate_vlasei_options,
    vlasei_options_failure,
};
use vstd::prelude::*;

verus! {

/// The text shown for an empty bracket rendering.
pub open spec fn visible_bracket_spec(rendered: Seq<char>) -> Seq<char> {
    if rendered.len() == 0 {
        "Text {}"@
    } else {
        rendered
    }
}

/// A bracket rendering, or `Text {}` when it is empty.
pub fn visible_bracket_rendering(rendered: &str) -> (r: String)
    ensures
        r@ == visible_bracket_spec(rendered@),
        r@.len() > 0,
{
    proof {
        reveal_strlit("Text {}");
    }
    if rendered.is_empty() {
        crate::text::owned("Text {}")
    } else {
        crate::text::owned(rendered)
    }
}

/// How `gentufa` projects blocks: in the Latin script, showing elided words and
/// compounds as asked.
#[derive(Debug, Clone, Copy, PartialEq, Eq, Structural)]
pub struct GentufaBlocksProjection {
    pub latin_script: bool,
    pub show_elided: bool,
    pub show_compounds: bool,
}

/// How `gentufa` projects blocks for its options; `show_compounds` is whether lujvo are
/// shown as compounds.
pub fn gentufa_blocks_projection_options(input: &GentufaInput, show_compounds: bool) -> (r:
    GentufaBlocksProjection)
    ensures
        r.latin_script,
        r.show_elided == input.show_elided,
        r.show_compounds == show_compounds,
{
    GentufaBlocksProjection { latin_script: true, show_elided: input.show_elided, show_compounds }
}

/// How diagnostics name the input: the file's path, `<stdin>`, or `<input>`.
pub open spec fn source_label_spec(file: Option<Seq<char>>, stdin: bool) -> Seq<char> {
    match file {
        Some(path) => path,
        None => if stdin {
            "<stdin>"@
        } else {
            "<input>"@
        },
    }
}

/// How diagnostics name the input; `file` is the path as displayed.
pub fn input_source_label(file: &Option<String>, stdin: bool) -> (r: String)
    ensures
        r@ == source_label_spec(
            match file {
                Some(p) => Some(p@),
                None => None,
            },
            stdin,
        ),
{
    match file {
        Some(path) => path.clone(),
        None => if stdin {
            crate::text::owned("<stdin>")
        } else {
            crate::text::owned("<input>")
        },
    }
}

/// The error of a command whose implementation is not there yet.
pub fn command_not_implemented(command: &str) -> (r: Result<(), CliError>)
    ensures
        r matches Err(e) && e.message@ == "`"@ + command@
            + "` is scaffolded but its implementation has not been ported yet"@,
{
    Err(
        CliError::new(
            concat3("`", command, "` is scaffolded but its implementation has not been ported yet"),
        ),
    )
}

/// Where a command's input text comes from.
#[derive(Debug, Clone)]
pub enum TextSource {
    /// The file at this path.
    File(String),
    /// The words given on the command line, joined by spaces.
    Words(String),
    /// Standard input, already read.
    Given(String),
    /// Standard input, still to be read.
    ReadStdin,
}

/// Where a command's input text comes from: a file first, then the words on the
/// command line, then standard input.
pub fn text_input_source(file: &Option<String>, text: &Vec<String>, stdin_text: &Option<String>) -> (r:
    TextSource)
    ensures
        match r {
            TextSource::File(p) => file == Some(p),
            TextSource::Words(w) => file is None && text@.len() > 0 && w@ == join_spec(
                views(text@),
                " "@,
            ),
            TextSource::Given(s) => file is None && text@.len() == 0 && stdin_text == Some(s),
            TextSource::ReadStdin => file is None && text@.len() == 0 && stdin_text is None,
        },
{
    match file {
        Some(path) => TextSource::File(path.clone()),
        None => {
            if text.len() > 0 {
                TextSource::Words(join_strings(text, " "))
            } else {
                match stdin_text {
                    Some(s) => TextSource::Given(s.clone()),
                    None => TextSource::ReadStdin,
                }
            }
        },
    }
}

/// A titled list of trace filters: the title with a colon, then one `- name` line each.
pub open spec fn filter_group_spec(title: Seq<char>, names: Seq<Seq<char>>) -> Seq<char>
    decreases names.len(),
{
    if names.len() == 0 {
        title + ":\n"@
    } else {
        filter_group_spec(title, names.drop_last()) + "- "@ + names.last() + "\n"@
    }
}

fn push_filter_group(out: &mut String, title: &str, names: &Vec<String>)
    ensures
        final(out)@ == old(out)@ + filter_group_spec(title@, views(names@)),
{
    let ghost start = out@;
    push_str(out, title);
    push_str(out, ":\n");
    let mut i: usize = 0;
    while i < names.len()
        invariant
            i <= names.len(),
            out@ == start + filter_group_spec(title@, views(names@).subrange(0, i as int)),
        decreases names.len() - i,
    {
        let ghost s = views(names@).subrange(0, i + 1);
        assert(s.drop_last() =~= views(names@).subrange(0, i as int));
        assert(s.last() == names@[i as int]@);
        push_str(out, "- ");
        push_str(out, names[i].as_str());
        push_str(out, "\n");
        i = i + 1;
    }
    assert(views(names@).subrange(0, names.len() as int) =~= views(names@));
}

/// The trace filters that a command lists for a phase, or the message for a phase it
/// does not support.
pub open spec fn trace_filter_list_spec(
    phase: CliTracePhase,
    supports_morphology: bool,
    supports_syntax: bool,
    v: TraceVocabulary,
) -> Result<Seq<char>, Seq<char>> {
    let m = filter_group_spec("morphology"@, views(v.morphology_filters@));
    let s = filter_group_spec("syntax"@, views(v.syntax_filters@));
    match phase {
        CliTracePhase::Morphology => if supports_morphology {
            Ok(m)
        } else {
            Err("unsupported trace phase `"@ + phase_argument(phase) + "`"@)
        },
        CliTracePhase::Syntax => if supports_syntax {
            Ok(s)
        } else {
            Err("unsupported trace phase `"@ + phase_argument(phase) + "`"@)
        },
        CliTracePhase::All => Ok(
            (if supports_morphology {
                m
            } else {
                seq![]
            }) + (if supports_syntax {
                s
            } else {
                seq![]
            }),
        ),
    }
}

/// The text of `--trace-list` for a phase.
pub fn trace_filter_list_text(
    phase: CliTracePhase,
    supports_morphology: bool,
    supports_syntax: bool,
    v: &TraceVocabulary,
) -> (r: Result<String, CliError>)
    ensures
        match r {
            Ok(t) => trace_filter_list_spec(phase, supports_morphology, supports_syntax, *v)
                == Result::<Seq<char>, Seq<char>>::Ok(t@),
            Err(e) => trace_filter_list_spec(phase, supports_morphology, supports_syntax, *v)
                == Result::<Seq<char>, Seq<char>>::Err(e.message@),
        },
{
    let mut out = String::new();
    match phase {
        CliTracePhase::Morphology => {
            if supports_morphology {
                push_filter_group(&mut out, "morphology", &v.morphology_filters);
                return Ok(out);
            }
        },
        CliTracePhase::Syntax => {
            if supports_syntax {
                push_filter_group(&mut out, "syntax", &v.syntax_filters);
                return Ok(out);
            }
        },
        CliTracePhase::All => {
            if supports_morphology {
                push_filter_group(&mut out, "morphology", &v.morphology_filters);
            }
            let ghost a = out@;
            if supports_syntax {
                push_filter_group(&mut out, "syntax", &v.syntax_filters);
            }
            assert(out@ =~= (if supports_morphology {
                filter_group_spec("morphology"@, views(v.morphology_filters@))
            } else {
                seq![]
            }) + (if supports_syntax {
                filter_group_spec("syntax"@, views(v.syntax_filters@))
            } else {
                seq![]
            }));
            return Ok(out);
        },
    }
    Err(CliError::new(concat3("unsupported trace phase `", trace_phase_argument(phase), "`")))
}

/// What `vlasei` does once its options are checked: list the trace filters of a phase,
/// or analyse its input with these trace settings.
#[derive(Debug, Clone)]
pub enum VlaseiStep {
    ListTraceFilters { phase: CliTracePhase },
    Analyse { trace: TraceOptions, source_label: String },
}

/// The first rule that the `vlasei` options (after a lone trace value became the text)
/// break: the option combinations, then the trace controls.
pub open spec fn vlasei_step_failure(input: VlaseiInput) -> Option<Seq<char>> {
    first_failure(
        vlasei_options_failure(
            input,
            if input.ascii {
                GlyphStyle::Ascii
            } else {
                GlyphStyle::Unicode
            },
        ),
        trace_rules_failure(
            input.trace is Some,
            "vlasei"@,
            input.trace_phase,
            input.trace_limit is Some,
            input.trace_list,
            true,
            false,
        ),
    )
}

/// What `vlasei` does before it analyses: checks the trace limit (the given one or
/// `default_trace_limit`), reads a lone trace value as the text, checks the options
/// and trace controls, and then lists the trace filters or settles the trace and the
/// source label.
pub fn vlasei_step(input: &mut VlaseiInput, v: &TraceVocabulary, default_trace_limit: usize) -> (r:
    Result<VlaseiStep, CliError>)
    ensures
        ({
            let before = *old(input);
            let after = *final(input);
            let limit = match before.trace_limit {
                Some(l) => l,
                None => default_trace_limit,
            };
            let moved = trace_value_is_text(before.trace, before.file, before.text@, *v);
            let label_file = match after.file {
                Some(p) => Some(p@),
                None => None,
            };
            let phase_or_default = match after.trace_phase {
                Some(p) => p,
                None => CliTracePhase::Morphology,
            };
            &&& limit == 0 ==> after == before
            &&& limit == 0 ==> (r matches Err(e) && e.message@
                == "--trace-limit must be greater than 0"@)
            &&& (limit > 0 && moved) ==> (after.trace == Some(None::<String>) && after.text@.len()
                == 1 && after.text@[0]@ == crate::trace::trace_value(before.trace))
            &&& (limit > 0 && !moved) ==> (after.trace == before.trace && after.text@
                == before.text@)
            &&& after.file == before.file
            &&& after.trace_list == before.trace_list
            &&& after.trace_phase == before.trace_phase
            &&& after.trace_limit == before.trace_limit
            &&& after.format == before.format
            &&& after.ascii == before.ascii
            &&& limit > 0 ==> match r {
                Err(e) => vlasei_step_failure(after) == Some(e.message@) || (vlasei_step_failure(
                    after,
                ) is None && !after.trace_list && match after.trace {
                    Some(Some(spec)) => crate::trace::trace_spec_meaning(spec@) == Err::<
                        (crate::trace::TraceLevelSpec, Option<Seq<char>>),
                        Seq<char>,
                    >(e.message@),
                    _ => false,
                }),
                Ok(VlaseiStep::ListTraceFilters { phase }) => vlasei_step_failure(after) is None
                    && after.trace_list && phase == phase_or_default,
                Ok(VlaseiStep::Analyse { trace, source_label }) => vlasei_step_failure(after)
                    is None && !after.trace_list && trace_settings(
                    trace,
                    after.trace,
                    phase_or_default,
                    limit,
                ) && source_label@ == source_label_spec(label_file, after.text@.len() == 0),
            }
        }),
{
    let glyphs = cli_glyph_style(input.ascii);
    let trace_limit = match input.trace_limit {
        Some(l) => l,
        None => default_trace_limit,
    };
    if trace_limit == 0 {
        return Err(CliError::from_str("--trace-limit must be greater than 0"));
    }
    let phase = match input.trace_phase {
        Some(p) => p,
        None => CliTracePhase::Morphology,
    };
    normalize_trace_text_input(&mut input.trace, &input.file, &mut input.text, v);
    validate_vlasei_options(input, glyphs)?;
    let checks = CliTraceValidation {
        command_name: crate::text::owned("vlasei"),
        trace_phase: input.trace_phase,
        trace_limit_present: input.trace_limit.is_some(),
        trace_list: input.trace_list,
        supports_morphology: true,
        supports_syntax: false,
    };
    validate_trace_controls(&input.trace, &checks)?;
    if input.trace_list {
        return Ok(VlaseiStep::ListTraceFilters { phase });
    }
    let trace = trace_options(&input.trace, phase, trace_limit)?;
    let source_label = input_source_label(&input.file, input.text.len() == 0);
    Ok(VlaseiStep::Analyse { trace, source_label })
}

/// What `gentufa` does once its options are checked: list the trace filters of a
/// phase, or analyse its input with these trace settings.
#[derive(Debug, Clone)]
pub enum GentufaStep {
    ListTraceFilters { phase: CliTracePhase },
    Analyse { trace: TraceOptions, source_label: String },
}

/// The first rule that the `gentufa` options (after a lone trace value became the
/// text) break: the trace controls, then, unless the trace filters are listed, the
/// option combinations.
pub open spec fn gentufa_step_failure(input: GentufaInput) -> Option<Seq<char>> {
    first_failure(
        trace_rules_failure(
            input.trace is Some,
            "gentufa"@,
            input.trace_phase,
            input.trace_limit is Some,
            input.trace_list,
            true,
            true,
        ),
        if input.trace_list {
            None
        } else {
            gentufa_options_failure(
                input,
                if input.ascii {
                    GlyphStyle::Ascii
                } else {
                    GlyphStyle::Unicode
                },
            )
        },
    )
}

/// `after` is `before` with at most its trace and text changed.
pub open spec fn gentufa_same_settings(after: GentufaInput, before: GentufaInput) -> bool {
    after == (GentufaInput { trace: after.trace, text: after.text, ..before })
}

/// What `gentufa` does before it analyses: checks the trace limit (the given one or
/// `default_trace_limit`), reads a lone trace value as the text, checks the trace
/// controls, and then lists the trace filters, or checks the options and settles the
/// trace and the source label.
pub fn gentufa_step(input: &mut GentufaInput, v: &TraceVocabulary, default_trace_limit: usize) -> (r:
    Result<GentufaStep, CliError>)
    ensures
        ({
            let before = *old(input);
            let after = *final(input);
            let limit = match before.trace_limit {
                Some(l) => l,
                None => default_trace_limit,
            };
            let moved = trace_value_is_text(before.trace, before.file, before.text@, *v);
            let label_file = match after.file {
                Some(p) => Some(p@),
                None => None,
            };
            let phase_or_default = match after.trace_phase {
                Some(p) => p,
                None => CliTracePhase::Syntax,
            };
            &&& limit == 0 ==> after == before
            &&& limit == 0 ==> (r matches Err(e) && e.message@
                == "--trace-limit must be greater than 0"@)
            &&& (limit > 0 && moved) ==> (after.trace == Some(None::<String>) && after.text@.len()
                == 1 && after.text@[0]@ == crate::trace::trace_value(before.trace))
            &&& (limit > 0 && !moved) ==> (after.trace == before.trace && after.text@
                == before.text@)
            &&& gentufa_same_settings(after, before)
            &&& limit > 0 ==> match r {
                Err(e) => gentufa_step_failure(after) == Some(e.message@) || (gentufa_step_failure(
                    after,
                ) is None && !after.trace_list && match after.trace {
                    Some(Some(spec)) => crate::trace::trace_spec_meaning(spec@) == Err::<
                        (crate::trace::TraceLevelSpec, Option<Seq<char>>),
                        Seq<char>,
                    >(e.message@),
                    _ => false,
                }),
                Ok(GentufaStep::ListTraceFilters { phase }) => gentufa_step_failure(after) is None
                    && after.trace_list && phase == phase_or_default,
                Ok(GentufaStep::Analyse { trace, source_label }) => gentufa_step_failure(after)
                    is None && !after.trace_list && trace_settings(
                    trace,
                    after.trace,
                    phase_or_default,
                    limit,
                ) && source_label@ == source_label_spec(label_file, after.text@.len() == 0),
            }
        }),
{
    let glyphs = cli_glyph_style(input.ascii);
    let trace_limit = match input.trace_limit {
        Some(l) => l,
        None => default_trace_limit,
    };
    if trace_limit == 0 {
        return Err(CliError::from_str("--trace-limit must be greater than 0"));
    }
    let phase = match input.trace_phase {
        Some(p) => p,
        None => CliTracePhase::Syntax,
    };
    normalize_trace_text_input(&mut input.trace, &input.file, &mut input.text, v);
    let checks = CliTraceValidation {
        command_name: crate::text::owned("gentufa"),
        trace_phase: input.trace_phase,
        trace_limit_present: input.trace_limit.is_some(),
        trace_list: input.trace_list,
        supports_morphology: true,
        supports_syntax: true,
    };
    validate_trace_controls(&input.trace, &checks)?;
    if input.trace_list {
        return Ok(GentufaStep::ListTraceFilters { phase });
    }
    validate_gentufa_options(input, glyphs)?;
    let trace = trace_options(&input.trace, phase, trace_limit)?;
    let source_label = input_source_label(&input.file, input.text.len() == 0);
    Ok(GentufaStep::Analyse { trace, source_label })
}

/// Where `gentufa` writes its output: to the output file only when the run succeeded
/// and one was given, else to standard output.
pub fn gentufa_writes_output_file(status: CliStatus, output_file: &Option<String>) -> (r: bool)
    ensures
        r == (status == CliStatus::Success && output_file is Some),
{
    status == CliStatus::Success && output_file.is_some()
}

} // verus!
