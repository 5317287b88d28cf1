//! Validation of command options that only combine in some ways.
//!
//! Each check states, as a spec function, the message of the first rule that
//! the options break, or `None` when they break none; the executable check
//! fails with exactly that message.

use crate::cli::{
    CliError, CliGlideMark, CliStressMark, GentufaFormat, GentufaImageOutputType, GentufaInput,
    GlyphStyle, TersmuFormat, TersmuInput, VlaseiFormat, VlaseiInput,
};
use crate::text::{ascii_lower_seq, concat3, str_eq, to_ascii_lowercase, trim, trim_spec};
use vstd::prelude::*;

verus! {

/// The first of two checks that fails.
pub open spec fn first_failure(a: Option<Seq<char>>, b: Option<Seq<char>>) -> Option<Seq<char>> {
    if a is Some {
        a
    } else {
        b
    }
}

/// The result of a check, given the message of the rule it breaks, if any.
pub open spec fn check_result(r: Result<(), CliError>, failure: Option<Seq<char>>) -> bool {
    match r {
        Ok(()) => failure is None,
        Err(e) => failure == Some(e.message@),
    }
}

/// The message of a flag that must not be present, when it is.
pub open spec fn not_present_failure(value: bool, message: Seq<char>) -> Option<Seq<char>> {
    if value {
        Some(message)
    } else {
        None
    }
}

/// Fails with `message` when `value` holds.
pub fn validate_not_present(value: bool, message: &str) -> (r: Result<(), CliError>)
    ensures
        check_result(r, not_present_failure(value, message@)),
{
    if value {
        return Err(CliError::from_str(message));
    }
    Ok(())
}

/// Fails with `message` when an indent is given.
pub fn validate_no_indent(indent: Option<usize>, message: &str) -> (r: Result<(), CliError>)
    ensures
        check_result(r, not_present_failure(indent is Some, message@)),
{
    if indent.is_some() {
        return Err(CliError::from_str(message));
    }
    Ok(())
}

/// The message for a nonzero indent on raw output.
pub open spec fn raw_indent_failure(indent: Option<usize>) -> Option<Seq<char>> {
    match indent {
        Some(n) => if n != 0 {
            Some(
                "`--indent` for raw output only supports `0`, because Rust Debug formatting only supports pretty or compact output"@,
            )
        } else {
            None
        },
        None => None,
    }
}

/// Raw (debug) output only supports indent 0.
pub fn validate_raw_indent(indent: Option<usize>) -> (r: Result<(), CliError>)
    ensures
        check_result(r, raw_indent_failure(indent)),
{
    if let Some(indent) = indent {
        if indent != 0 {
            return Err(
                CliError::from_str(
                    "`--indent` for raw output only supports `0`, because Rust Debug formatting only supports pretty or compact output",
                ),
            );
        }
    }
    Ok(())
}

/// The message for phoneme marks on an output format that has no phonemes.
pub open spec fn no_phoneme_projection_failure(
    mark_stress: Option<CliStressMark>,
    mark_glides: Option<CliGlideMark>,
    output_format: Seq<char>,
) -> Option<Seq<char>> {
    if mark_stress is Some || mark_glides is Some {
        Some(
            "`--mark-stress` and `--mark-glides` are not supported with "@ + output_format
                + " output"@,
        )
    } else {
        None
    }
}

/// Phoneme marks are refused for an output format that shows no phonemes.
pub fn validate_no_phoneme_projection(
    mark_stress: Option<CliStressMark>,
    mark_glides: Option<CliGlideMark>,
    output_format: &str,
) -> (r: Result<(), CliError>)
    ensures
        check_result(r, no_phoneme_projection_failure(mark_stress, mark_glides, output_format@)),
{
    if mark_stress.is_some() || mark_glides.is_some() {
        let message = concat3(
            "`--mark-stress` and `--mark-glides` are not supported with ",
            output_format,
            " output",
        );
        return Err(CliError::new(message));
    }
    Ok(())
}

/// The message for phoneme marks that ASCII glyphs cannot show.
pub open spec fn ascii_phoneme_projection_failure(
    mark_stress: Option<CliStressMark>,
    mark_glides: Option<CliGlideMark>,
    glyphs: GlyphStyle,
) -> Option<Seq<char>> {
    if glyphs == GlyphStyle::Unicode {
        None
    } else if mark_stress == Some(CliStressMark::Acute) || mark_stress == Some(CliStressMark::Caps) {
        Some("`--ascii` is not compatible with `--mark-stress acute` or `--mark-stress caps`"@)
    } else if mark_glides == Some(CliGlideMark::Breve) {
        Some("`--ascii` is not compatible with `--mark-glides breve`"@)
    } else {
        None
    }
}

/// ASCII output cannot show acute or capital stress marks, nor breve glides.
pub fn validate_ascii_phoneme_projection(
    mark_stress: Option<CliStressMark>,
    mark_glides: Option<CliGlideMark>,
    glyphs: GlyphStyle,
) -> (r: Result<(), CliError>)
    ensures
        check_result(r, ascii_phoneme_projection_failure(mark_stress, mark_glides, glyphs)),
{
    if glyphs == GlyphStyle::Unicode {
        return Ok(());
    }
    match mark_stress {
        Some(CliStressMark::Acute) | Some(CliStressMark::Caps) => {
            return Err(
                CliError::from_str(
                    "`--ascii` is not compatible with `--mark-stress acute` or `--mark-stress caps`",
                ),
            );
        },
        _ => {},
    }
    match mark_glides {
        Some(CliGlideMark::Breve) => {
            return Err(
                CliError::from_str("`--ascii` is not compatible with `--mark-glides breve`"),
            );
        },
        _ => {},
    }
    Ok(())
}

/// Message: `--show-spans` outside tree output.
pub open spec fn show_spans_message() -> Seq<char> {
    "`--show-spans` is only supported with `--turtai tree`"@
}

/// Message: `--show-refs` outside tree output.
pub open spec fn show_refs_message() -> Seq<char> {
    "`--show-refs` is only supported with `--turtai tree`"@
}

/// Message: `--decompose-lujvo` outside tree and bracket output.
pub open spec fn decompose_lujvo_message() -> Seq<char> {
    "`--decompose-lujvo` is only supported with `--turtai tree` or `--turtai brackets`"@
}

/// Message: `--indent` with a format that has no indentation.
pub open spec fn indent_message() -> Seq<char> {
    "`--indent` is only supported with raw, JSON, and tree output"@
}

/// The first rule that the `vlasei` options break, if any.
pub open spec fn vlasei_options_failure(input: VlaseiInput, glyphs: GlyphStyle) -> Option<
    Seq<char>,
> {
    if input.format == VlaseiFormat::Ipa && glyphs == GlyphStyle::Ascii {
        Some("`--ascii` is not compatible with `--turtai ipa`"@)
    } else {
        first_failure(
            ascii_phoneme_projection_failure(input.mark_stress, input.mark_glides, glyphs),
            match input.format {
                VlaseiFormat::Raw => first_failure(
                    raw_indent_failure(input.indent),
                    first_failure(
                        if glyphs == GlyphStyle::Unicode {
                            no_phoneme_projection_failure(
                                input.mark_stress,
                                input.mark_glides,
                                "raw"@,
                            )
                        } else {
                            None
                        },
                        first_failure(
                            not_present_failure(input.show_spans, show_spans_message()),
                            not_present_failure(input.decompose_lujvo, decompose_lujvo_message()),
                        ),
                    ),
                ),
                VlaseiFormat::Json => first_failure(
                    not_present_failure(input.show_spans, show_spans_message()),
                    not_present_failure(input.decompose_lujvo, decompose_lujvo_message()),
                ),
                VlaseiFormat::Tree => None,
                VlaseiFormat::Ipa => first_failure(
                    not_present_failure(input.indent is Some, indent_message()),
                    first_failure(
                        no_phoneme_projection_failure(input.mark_stress, input.mark_glides, "IPA"@),
                        first_failure(
                            not_present_failure(input.show_spans, show_spans_message()),
                            not_present_failure(input.decompose_lujvo, decompose_lujvo_message()),
                        ),
                    ),
                ),
                VlaseiFormat::Brackets => first_failure(
                    not_present_failure(input.indent is Some, indent_message()),
                    not_present_failure(input.show_spans, show_spans_message()),
                ),
            },
        )
    }
}

/// Checks that the `vlasei` options fit together.
pub fn validate_vlasei_options(input: &VlaseiInput, glyphs: GlyphStyle) -> (r: Result<
    (),
    CliError,
>)
    ensures
        check_result(r, vlasei_options_failure(*input, glyphs)),
{
    if input.format == VlaseiFormat::Ipa && glyphs == GlyphStyle::Ascii {
        return Err(CliError::from_str("`--ascii` is not compatible with `--turtai ipa`"));
    }
    validate_ascii_phoneme_projection(input.mark_stress, input.mark_glides, glyphs)?;
    match input.format {
        VlaseiFormat::Raw => {
            validate_raw_indent(input.indent)?;
            if glyphs == GlyphStyle::Unicode {
                validate_no_phoneme_projection(input.mark_stress, input.mark_glides, "raw")?;
            }
            validate_not_present(
                input.show_spans,
                "`--show-spans` is only supported with `--turtai tree`",
            )?;
            validate_not_present(
                input.decompose_lujvo,
                "`--decompose-lujvo` is only supported with `--turtai tree` or `--turtai brackets`",
            )?;
        },
        VlaseiFormat::Json => {
            validate_not_present(
                input.show_spans,
                "`--show-spans` is only supported with `--turtai tree`",
            )?;
            validate_not_present(
                input.decompose_lujvo,
                "`--decompose-lujvo` is only supported with `--turtai tree` or `--turtai brackets`",
            )?;
        },
        VlaseiFormat::Tree => {},
        VlaseiFormat::Ipa => {
            validate_no_indent(
                input.indent,
                "`--indent` is only supported with raw, JSON, and tree output",
            )?;
            validate_no_phoneme_projection(input.mark_stress, input.mark_glides, "IPA")?;
            validate_not_present(
                input.show_spans,
                "`--show-spans` is only supported with `--turtai tree`",
            )?;
            validate_not_present(
                input.decompose_lujvo,
                "`--decompose-lujvo` is only supported with `--turtai tree` or `--turtai brackets`",
            )?;
        },
        VlaseiFormat::Brackets => {
            validate_no_indent(
                input.indent,
                "`--indent` is only supported with raw, JSON, and tree output",
            )?;
            validate_not_present(
                input.show_spans,
                "`--show-spans` is only supported with `--turtai tree`",
            )?;
        },
    }
    Ok(())
}

/// The rule that the `tersmu` options break, if any.
pub open spec fn tersmu_options_failure(input: TersmuInput) -> Option<Seq<char>> {
    if input.format == TersmuFormat::Json {
        not_present_failure(input.show_defs, "`--show-defs` is not supported with `--format json`"@)
    } else {
        None
    }
}

/// Checks that the `tersmu` options fit together.
pub fn validate_tersmu_options(input: &TersmuInput) -> (r: Result<(), CliError>)
    ensures
        check_result(r, tersmu_options_failure(*input)),
{
    if input.format == TersmuFormat::Json {
        validate_not_present(input.show_defs, "`--show-defs` is not supported with `--format json`")?;
    }
    Ok(())
}


/// The extension of a path, as `std::path::Path::extension` gives it for the path
/// written as `path`: the part of the final file name after its last `.`, when the
/// file name has a `.` that is not its first character.
pub uninterp spec fn path_extension(path: Seq<char>) -> Option<Seq<char>>;

/// Calls `std::path::Path::extension` on the path written as `path` and returns
/// the extension as text; a path given as a `&str` is valid UTF-8, so its
/// extension is too. Only the name `path_extension` states what comes back.
#[verifier::external_body]
fn path_extension_of(path: &str) -> (r: Option<String>)
    ensures
        match r {
            Some(e) => path_extension(path@) == Some(e@),
            None => path_extension(path@) is None,
        },
{
    std::path::Path::new(path).extension().and_then(|e| e.to_str()).map(|e| e.to_owned())
}

/// Message: no usable extension to infer the blocks image type from.
pub open spec fn no_extension_message() -> Seq<char> {
    "cannot infer gentufa blocks output type without a .svg or .png extension; use `--output-type svg` or `--output-type png`"@
}

/// The image type of `gentufa --turtai blocks`: the explicit `--output-type`, else
/// the one named by the output file's extension (trimmed and lowercased), else SVG
/// when the output goes to standard output; or the message of why it cannot be
/// inferred.
pub open spec fn blocks_output_type(input: GentufaInput) -> Result<GentufaImageOutputType, Seq<char>> {
    match input.output_type {
        Some(t) => Ok(t),
        None => match input.output_file {
            None => Ok(GentufaImageOutputType::Svg),
            Some(path) => match path_extension(path@) {
                None => Err(no_extension_message()),
                Some(e) => {
                    let x = ascii_lower_seq(trim_spec(e));
                    if x == "svg"@ {
                        Ok(GentufaImageOutputType::Svg)
                    } else if x == "png"@ {
                        Ok(GentufaImageOutputType::Png)
                    } else if x.len() > 0 {
                        Err(
                            "cannot infer gentufa blocks output type from extension `."@ + x
                                + "`; use `--output-type svg` or `--output-type png`"@,
                        )
                    } else {
                        Err(no_extension_message())
                    }
                },
            },
        },
    }
}

/// Resolves the image type that `gentufa --turtai blocks` writes.
pub fn resolve_gentufa_blocks_output_type(input: &GentufaInput) -> (r: Result<
    GentufaImageOutputType,
    CliError,
>)
    requires
        input.format == GentufaFormat::Blocks,
    ensures
        match r {
            Ok(t) => blocks_output_type(*input) == Ok::<GentufaImageOutputType, Seq<char>>(t),
            Err(e) => blocks_output_type(*input) == Err::<GentufaImageOutputType, Seq<char>>(
                e.message@,
            ),
        },
{
    if let Some(output_type) = input.output_type {
        return Ok(output_type);
    }
    let path = match &input.output_file {
        None => {
            return Ok(GentufaImageOutputType::Svg);
        },
        Some(path) => path,
    };
    let extension = match path_extension_of(path.as_str()) {
        None => {
            return Err(
                CliError::from_str(
                    "cannot infer gentufa blocks output type without a .svg or .png extension; use `--output-type svg` or `--output-type png`",
                ),
            );
        },
        Some(e) => {
            let t = trim(e.as_str());
            to_ascii_lowercase(t.as_str())
        },
    };
    if str_eq(extension.as_str(), "svg") {
        Ok(GentufaImageOutputType::Svg)
    } else if str_eq(extension.as_str(), "png") {
        Ok(GentufaImageOutputType::Png)
    } else if !extension.as_str().is_empty() {
        let message = concat3(
            "cannot infer gentufa blocks output type from extension `.",
            extension.as_str(),
            "`; use `--output-type svg` or `--output-type png`",
        );
        Err(CliError::new(message))
    } else {
        Err(
            CliError::from_str(
                "cannot infer gentufa blocks output type without a .svg or .png extension; use `--output-type svg` or `--output-type png`",
            ),
        )
    }
}

/// The first rule that the `gentufa` options break, if any.
pub open spec fn gentufa_options_failure(input: GentufaInput, glyphs: GlyphStyle) -> Option<
    Seq<char>,
> {
    first_failure(
        ascii_phoneme_projection_failure(input.mark_stress, input.mark_glides, glyphs),
        first_failure(
            if input.format != GentufaFormat::Blocks {
                not_present_failure(
                    input.output_type is Some,
                    "`--output-type` is only supported with `--turtai blocks`"@,
                )
            } else {
                None
            },
            match input.format {
                GentufaFormat::Raw => first_failure(
                    raw_indent_failure(input.indent),
                    first_failure(
                        if glyphs == GlyphStyle::Unicode {
                            no_phoneme_projection_failure(
                                input.mark_stress,
                                input.mark_glides,
                                "raw"@,
                            )
                        } else {
                            None
                        },
                        first_failure(
                            not_present_failure(input.show_spans, show_spans_message()),
                            first_failure(
                                not_present_failure(input.show_refs, show_refs_message()),
                                not_present_failure(
                                    input.decompose_lujvo,
                                    decompose_lujvo_message(),
                                ),
                            ),
                        ),
                    ),
                ),
                GentufaFormat::Json => first_failure(
                    not_present_failure(input.show_spans, show_spans_message()),
                    first_failure(
                        not_present_failure(input.show_refs, show_refs_message()),
                        not_present_failure(input.decompose_lujvo, decompose_lujvo_message()),
                    ),
                ),
                GentufaFormat::Blocks => first_failure(
                    not_present_failure(input.indent is Some, indent_message()),
                    first_failure(
                        not_present_failure(
                            input.show_defs,
                            "`--show-defs` is not supported with `--turtai blocks`"@,
                        ),
                        first_failure(
                            not_present_failure(input.show_spans, show_spans_message()),
                            first_failure(
                                not_present_failure(input.show_refs, show_refs_message()),
                                first_failure(
                                    not_present_failure(
                                        input.decompose_lujvo,
                                        decompose_lujvo_message(),
                                    ),
                                    match blocks_output_type(input) {
                                        Ok(_) => None,
                                        Err(m) => Some(m),
                                    },
                                ),
                            ),
                        ),
                    ),
                ),
                GentufaFormat::Tree => None,
                GentufaFormat::Brackets => first_failure(
                    not_present_failure(input.indent is Some, indent_message()),
                    first_failure(
                        not_present_failure(input.show_spans, show_spans_message()),
                        not_present_failure(input.show_refs, show_refs_message()),
                    ),
                ),
            },
        ),
    )
}

/// Checks that the `gentufa` options fit together.
pub fn validate_gentufa_options(input: &GentufaInput, glyphs: GlyphStyle) -> (r: Result<
    (),
    CliError,
>)
    ensures
        check_result(r, gentufa_options_failure(*input, glyphs)),
{
    validate_ascii_phoneme_projection(input.mark_stress, input.mark_glides, glyphs)?;
    if input.format != GentufaFormat::Blocks {
        validate_not_present(
            input.output_type.is_some(),
            "`--output-type` is only supported with `--turtai blocks`",
        )?;
    }
    match input.format {
        GentufaFormat::Raw => {
            validate_raw_indent(input.indent)?;
            if glyphs == GlyphStyle::Unicode {
                validate_no_phoneme_projection(input.mark_stress, input.mark_glides, "raw")?;
            }
            validate_not_present(
                input.show_spans,
                "`--show-spans` is only supported with `--turtai tree`",
            )?;
            validate_not_present(
                input.show_refs,
                "`--show-refs` is only supported with `--turtai tree`",
            )?;
            validate_not_present(
                input.decompose_lujvo,
                "`--decompose-lujvo` is only supported with `--turtai tree` or `--turtai brackets`",
            )?;
        },
        GentufaFormat::Json => {
            validate_not_present(
                input.show_spans,
                "`--show-spans` is only supported with `--turtai tree`",
            )?;
            validate_not_present(
                input.show_refs,
                "`--show-refs` is only supported with `--turtai tree`",
            )?;
            validate_not_present(
                input.decompose_lujvo,
                "`--decompose-lujvo` is only supported with `--turtai tree` or `--turtai brackets`",
            )?;
        },
        GentufaFormat::Blocks => {
            validate_no_indent(
                input.indent,
                "`--indent` is only supported with raw, JSON, and tree output",
            )?;
            validate_not_present(
                input.show_defs,
                "`--show-defs` is not supported with `--turtai blocks`",
            )?;
            validate_not_present(
                input.show_spans,
                "`--show-spans` is only supported with `--turtai tree`",
            )?;
            validate_not_present(
                input.show_refs,
                "`--show-refs` is only supported with `--turtai tree`",
            )?;
            validate_not_present(
                input.decompose_lujvo,
                "`--decompose-lujvo` is only supported with `--turtai tree` or `--turtai brackets`",
            )?;
            let _ = resolve_gentufa_blocks_output_type(input)?;
        },
        GentufaFormat::Tree => {},
        GentufaFormat::Brackets => {
            validate_no_indent(
                input.indent,
                "`--indent` is only supported with raw, JSON, and tree output",
            )?;
            validate_not_present(
                input.show_spans,
                "`--show-spans` is only supported with `--turtai tree`",
            )?;
            validate_not_present(
                input.show_refs,
                "`--show-refs` is only supported with `--turtai tree`",
            )?;
        },
    }
    Ok(())
}

} // verus!
