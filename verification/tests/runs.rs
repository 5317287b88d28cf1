use jbotci::cli::{CliStatus, CliStressMark, CliTracePhase, GentufaFormat, GentufaInput, VlaseiFormat, VlaseiInput};
use jbotci::lsp_tokens::{push_lsp_semantic_token, LspSemanticToken, TokenPosition};
use jbotci::runs::{
    command_not_implemented, gentufa_writes_output_file, input_source_label,
    gentufa_step, text_input_source, trace_filter_list_text, visible_bracket_rendering, vlasei_step,
    GentufaStep, TextSource, VlaseiStep,
};
use jbotci::trace::{TraceLevelSpec, TraceOptions, TraceVocabulary};

fn vocabulary() -> TraceVocabulary {
    TraceVocabulary {
        levels: vec![1, 2, 3],
        morphology_filters: vec!["cmavo".to_owned(), "brivla".to_owned()],
        syntax_filters: vec!["sumti".to_owned()],
    }
}

fn vlasei() -> VlaseiInput {
    VlaseiInput {
        file: None,
        ascii: false,
        detailed_errors: false,
        max_errors: 20,
        trace_phase: None,
        trace_limit: None,
        trace_list: false,
        format: VlaseiFormat::Brackets,
        trace: None,
        dialect: None,
        indent: None,
        mark_stress: None,
        mark_glides: None,
        show_spans: false,
        decompose_lujvo: false,
        text: vec!["mi".to_owned(), "klama".to_owned()],
    }
}

#[test]
fn small_command_helpers() {
    assert_eq!(visible_bracket_rendering(""), "Text {}");
    assert_eq!(visible_bracket_rendering("[mi]"), "[mi]");
    assert_eq!(input_source_label(&Some("a.jbo".to_owned()), true), "a.jbo");
    assert_eq!(input_source_label(&None, true), "<stdin>");
    assert_eq!(input_source_label(&None, false), "<input>");
    assert_eq!(
        command_not_implemented("lsp").unwrap_err().message,
        "`lsp` is scaffolded but its implementation has not been ported yet"
    );
    assert!(gentufa_writes_output_file(CliStatus::Success, &Some("out.svg".to_owned())));
    assert!(!gentufa_writes_output_file(CliStatus::Failure, &Some("out.svg".to_owned())));
    assert!(!gentufa_writes_output_file(CliStatus::Success, &None));
}

#[test]
fn input_text_comes_from_file_words_or_stdin() {
    let words = vec!["mi".to_owned(), "klama".to_owned()];
    assert!(matches!(text_input_source(&Some("f".to_owned()), &words, &None), TextSource::File(p) if p == "f"));
    assert!(matches!(text_input_source(&None, &words, &None), TextSource::Words(w) if w == "mi klama"));
    assert!(matches!(text_input_source(&None, &Vec::new(), &Some("do".to_owned())), TextSource::Given(s) if s == "do"));
    assert!(matches!(text_input_source(&None, &Vec::new(), &None), TextSource::ReadStdin));
}

#[test]
fn trace_filters_are_listed_by_phase() {
    let v = vocabulary();
    assert_eq!(
        trace_filter_list_text(CliTracePhase::Morphology, true, false, &v).unwrap(),
        "morphology:\n- cmavo\n- brivla\n"
    );
    assert_eq!(
        trace_filter_list_text(CliTracePhase::All, true, true, &v).unwrap(),
        "morphology:\n- cmavo\n- brivla\nsyntax:\n- sumti\n"
    );
    assert_eq!(
        trace_filter_list_text(CliTracePhase::Syntax, true, false, &v).unwrap_err().message,
        "unsupported trace phase `syntax`"
    );
}

#[test]
fn vlasei_steps_before_analysis() {
    let v = vocabulary();
    let mut input = vlasei();
    input.trace_limit = Some(0);
    assert_eq!(
        vlasei_step(&mut input, &v, 100).unwrap_err().message,
        "--trace-limit must be greater than 0"
    );
    let mut input = vlasei();
    match vlasei_step(&mut input, &v, 100).unwrap() {
        VlaseiStep::Analyse { trace, source_label } => {
            assert!(matches!(trace, TraceOptions::Disabled));
            assert_eq!(source_label, "<input>");
        }
        other => panic!("unexpected {other:?}"),
    }
    let mut input = vlasei();
    input.trace_list = true;
    assert!(matches!(
        vlasei_step(&mut input, &v, 100).unwrap(),
        VlaseiStep::ListTraceFilters { phase: CliTracePhase::Morphology }
    ));
    let mut input = vlasei();
    input.text.clear();
    input.trace = Some(Some("coi".to_owned()));
    match vlasei_step(&mut input, &v, 100).unwrap() {
        VlaseiStep::Analyse { trace, source_label } => {
            assert!(matches!(trace, TraceOptions::Enabled { .. }));
            assert_eq!(source_label, "<input>");
        }
        other => panic!("unexpected {other:?}"),
    }
    assert_eq!(input.text, vec!["coi".to_owned()]);
    assert_eq!(input.trace, Some(None));
    let mut input = vlasei();
    input.trace = Some(Some("cmavo:2".to_owned()));
    input.trace_limit = Some(7);
    match vlasei_step(&mut input, &v, 100).unwrap() {
        VlaseiStep::Analyse { trace: TraceOptions::Enabled { level, filter, phase, limit }, .. } => {
            assert!(matches!(level, TraceLevelSpec::Number(2)));
            assert_eq!(filter, Some("cmavo".to_owned()));
            assert_eq!(phase, CliTracePhase::Morphology);
            assert_eq!(limit, 7);
        }
        other => panic!("unexpected {other:?}"),
    }
    let mut input = vlasei();
    input.trace = Some(None);
    match vlasei_step(&mut input, &v, 100).unwrap() {
        VlaseiStep::Analyse { trace: TraceOptions::Enabled { level, filter, phase, limit }, .. } => {
            assert!(matches!(level, TraceLevelSpec::Number(1)));
            assert_eq!(filter, None);
            assert_eq!(phase, CliTracePhase::Morphology);
            assert_eq!(limit, 100);
        }
        other => panic!("unexpected {other:?}"),
    }
    let mut input = vlasei();
    input.trace_phase = Some(CliTracePhase::Syntax);
    input.trace = Some(None);
    assert_eq!(
        vlasei_step(&mut input, &v, 100).unwrap_err().message,
        "`--trace-phase syntax` is not supported with `vlasei`"
    );
}

fn gentufa() -> GentufaInput {
    GentufaInput {
        file: None,
        ascii: false,
        detailed_errors: false,
        error_context: 0,
        max_errors: 20,
        trace_phase: None,
        trace_limit: None,
        trace_list: false,
        format: GentufaFormat::Brackets,
        trace: None,
        dialect: None,
        show_defs: false,
        indent: None,
        mark_stress: None,
        mark_glides: None,
        show_spans: false,
        show_refs: false,
        show_elided: false,
        decompose_lujvo: false,
        output_type: None,
        output_file: None,
        text: vec!["mi".to_owned(), "klama".to_owned()],
    }
}

#[test]
fn gentufa_steps_before_analysis() {
    let v = vocabulary();
    let mut input = gentufa();
    input.trace_limit = Some(0);
    input.trace = Some(None);
    assert_eq!(
        gentufa_step(&mut input, &v, 100).unwrap_err().message,
        "--trace-limit must be greater than 0"
    );
    let mut input = gentufa();
    assert_eq!(
        gentufa_step(&mut input, &v, 0).unwrap_err().message,
        "--trace-limit must be greater than 0"
    );
    let mut input = gentufa();
    match gentufa_step(&mut input, &v, 100).unwrap() {
        GentufaStep::Analyse { trace, source_label } => {
            assert!(matches!(trace, TraceOptions::Disabled));
            assert_eq!(source_label, "<input>");
        }
        other => panic!("unexpected {other:?}"),
    }
    let mut input = gentufa();
    input.trace_list = true;
    input.ascii = true;
    input.mark_stress = Some(CliStressMark::Acute);
    assert!(matches!(
        gentufa_step(&mut input, &v, 100).unwrap(),
        GentufaStep::ListTraceFilters { phase: CliTracePhase::Syntax }
    ));
    let mut input = gentufa();
    input.ascii = true;
    input.mark_stress = Some(CliStressMark::Acute);
    assert_eq!(
        gentufa_step(&mut input, &v, 100).unwrap_err().message,
        "`--ascii` is not compatible with `--mark-stress acute` or `--mark-stress caps`"
    );
    let mut input = gentufa();
    input.trace_limit = Some(5);
    assert_eq!(
        gentufa_step(&mut input, &v, 100).unwrap_err().message,
        "`--trace-limit` requires `--trace`"
    );
    let mut input = gentufa();
    input.text.clear();
    input.trace = Some(Some("coi".to_owned()));
    match gentufa_step(&mut input, &v, 100).unwrap() {
        GentufaStep::Analyse { trace, source_label } => {
            assert!(matches!(trace, TraceOptions::Enabled { .. }));
            assert_eq!(source_label, "<input>");
        }
        other => panic!("unexpected {other:?}"),
    }
    assert_eq!(input.text, vec!["coi".to_owned()]);
    let mut input = gentufa();
    input.trace = Some(Some("sumti".to_owned()));
    input.trace_phase = Some(CliTracePhase::Morphology);
    match gentufa_step(&mut input, &v, 100).unwrap() {
        GentufaStep::Analyse { trace: TraceOptions::Enabled { level, filter, phase, limit }, .. } => {
            assert!(matches!(level, TraceLevelSpec::All));
            assert_eq!(filter, Some("sumti".to_owned()));
            assert_eq!(phase, CliTracePhase::Morphology);
            assert_eq!(limit, 100);
        }
        other => panic!("unexpected {other:?}"),
    }
    let mut input = gentufa();
    input.trace = Some(None);
    input.trace_limit = Some(9);
    match gentufa_step(&mut input, &v, 100).unwrap() {
        GentufaStep::Analyse { trace: TraceOptions::Enabled { phase, limit, .. }, .. } => {
            assert_eq!(phase, CliTracePhase::Syntax);
            assert_eq!(limit, 9);
        }
        other => panic!("unexpected {other:?}"),
    }
}

fn pos(line: usize, column: usize) -> TokenPosition {
    TokenPosition { line, column }
}

#[test]
fn semantic_tokens_are_encoded_relative_to_the_previous_one() {
    let mut tokens = Vec::new();
    let mut previous = None;
    push_lsp_semantic_token(&mut tokens, &mut previous, pos(0, 0), pos(0, 3), 7);
    push_lsp_semantic_token(&mut tokens, &mut previous, pos(0, 4), pos(0, 6), 7);
    push_lsp_semantic_token(&mut tokens, &mut previous, pos(0, 7), pos(0, 10), 2);
    push_lsp_semantic_token(&mut tokens, &mut previous, pos(1, 0), pos(1, 3), 2);
    push_lsp_semantic_token(&mut tokens, &mut previous, pos(1, 4), pos(1, 6), 7);
    let expected = [(0, 0, 3, 7), (0, 4, 2, 7), (0, 3, 3, 2), (1, 0, 3, 2), (0, 4, 2, 7)];
    let got: Vec<(u32, u32, u32, u32)> = tokens
        .iter()
        .map(|t: &LspSemanticToken| (t.delta_line, t.delta_start, t.length, t.token_type))
        .collect();
    assert_eq!(got, expected.to_vec());
    assert_eq!(previous, Some(pos(1, 4)));
}
