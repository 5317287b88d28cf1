use jbotci::benchmark::{
    counter_delta, format_block_io, format_context_switches, format_page_faults,
    format_status_counts, wall_time_stats, BenchmarkRecord, BenchmarkStatusCounts,
    ProcessResourceDelta, ProcessResourceUsage,
};
use jbotci::cli::{CliStatus, CliUsePrecomputed, CuktaCliFormat, CuktaInput, SetupInput};
use jbotci::cukta::{
    cukta_request_from_input, cukta_target_filter_from_input, cukta_target_flags_present,
    validate_cukta_input, CuktaRequest, CuktaSearchMode, CuktaTargetFilter,
};
use jbotci::jvozba::{render_jvozba_result, JvozbaBuildResult, JvozbaSegment, JvozbaSegmentKind};
use jbotci::setup::{
    check_setup_tasks, cli_setup_progress_detail, setup_complete_message, SetupProgress,
    SetupReport,
};
use jbotci::vlatai::{
    render_vlatai_classification_text_with_prefix, render_vlatai_phonemes, render_vlatai_text,
    vlatai_diagnostics, vlatai_fuhivla_stage, vlatai_lujvo_part_text, vlatai_not_single_word_diagnostic,
    vlatai_rafsi_kind, vlatai_source_label, vlatai_status, PlainWordClassification,
    ValsiAnalysis, ValsiAnalysisStatus, ValsiClassification, ValsiFuhivlaStage, ValsiLujvoPart,
    ValsiLujvoPartKind, ValsiLujvoRafsiKind, VlataiDiagnostic, WordKind,
};

fn cukta() -> CuktaInput {
    CuktaInput {
        count: None,
        toc: false,
        section: None,
        example: None,
        valsi: None,
        targets: Vec::new(),
        target_sections: false,
        target_paragraphs: false,
        target_examples: false,
        format: CuktaCliFormat::Markdown,
        query: Vec::new(),
    }
}

#[test]
fn cukta_modes_are_exclusive_and_non_empty() {
    assert!(validate_cukta_input(&cukta()).is_ok());
    let mut c = cukta();
    c.toc = true;
    c.valsi = Some("klama".to_owned());
    assert_eq!(
        validate_cukta_input(&c).unwrap_err().message,
        "Choose only one cukta mode: --toc, --section, --example, --valsi, or a positional query."
    );
    let mut c = cukta();
    c.count = Some(0);
    assert_eq!(validate_cukta_input(&c).unwrap_err().message, "`--count` must be greater than 0");
    let mut c = cukta();
    c.section = Some("  ".to_owned());
    assert_eq!(validate_cukta_input(&c).unwrap_err().message, "`--section` requires a non-empty reference.");
    let mut c = cukta();
    c.query = vec![" ".to_owned(), "".to_owned()];
    assert_eq!(validate_cukta_input(&c).unwrap_err().message, "cukta query text must be non-empty.");
    let mut c = cukta();
    c.toc = true;
    c.target_examples = true;
    assert_eq!(
        validate_cukta_input(&c).unwrap_err().message,
        "Cukta target filters are only valid with search modes."
    );
}

#[test]
fn cukta_targets_are_read_from_flags_and_lists() {
    let mut c = cukta();
    assert!(!cukta_target_flags_present(&c));
    assert_eq!(cukta_target_filter_from_input(&c).unwrap(), CuktaTargetFilter::Default);
    c.targets = vec![" Sections ,example".to_owned(), "".to_owned()];
    assert!(cukta_target_flags_present(&c));
    assert_eq!(
        cukta_target_filter_from_input(&c).unwrap(),
        CuktaTargetFilter::Selected { sections: true, paragraphs: false, examples: true }
    );
    c.targets = vec!["chapter".to_owned()];
    assert_eq!(
        cukta_target_filter_from_input(&c).unwrap_err().message,
        "Unknown cukta search target `chapter`. Use section, paragraph, or example."
    );
    c.targets = vec![",".to_owned()];
    assert_eq!(cukta_target_filter_from_input(&c).unwrap(), CuktaTargetFilter::Default);
}

#[test]
fn cukta_requests_follow_the_chosen_mode() {
    assert!(matches!(cukta_request_from_input(&cukta(), 5).unwrap(), CuktaRequest::DefaultSection));
    let mut c = cukta();
    c.section = Some(" 4.2 ".to_owned());
    match cukta_request_from_input(&c, 5).unwrap() {
        CuktaRequest::Section { reference } => assert_eq!(reference, "4.2"),
        other => panic!("unexpected {other:?}"),
    }
    let mut c = cukta();
    c.query = vec!["go".to_owned(), "there ".to_owned()];
    c.count = Some(3);
    c.target_paragraphs = true;
    match cukta_request_from_input(&c, 5).unwrap() {
        CuktaRequest::Search { mode, query, count, targets } => {
            assert_eq!(mode, CuktaSearchMode::Meaning);
            assert_eq!(query, "go there");
            assert_eq!(count, 3);
            assert_eq!(targets, CuktaTargetFilter::Selected { sections: false, paragraphs: true, examples: false });
        }
        other => panic!("unexpected {other:?}"),
    }
}

fn word(category: WordKind) -> PlainWordClassification {
    PlainWordClassification {
        category,
        phonemes: "klama".to_owned(),
        phonemes_rendered: Some("kláma".to_owned()),
        selmaho: None,
        split: None,
        parts: Vec::new(),
        stage: None,
    }
}

#[test]
fn vlatai_reports_classifications() {
    assert_eq!(vlatai_source_label(0), "<arg:1>");
    assert_eq!(vlatai_status(ValsiAnalysisStatus::NotSingleWord), "not-single-word");
    assert_eq!(vlatai_rafsi_kind(ValsiLujvoRafsiKind::Ccv), "ccv-rafsi");
    assert_eq!(vlatai_fuhivla_stage(ValsiFuhivlaStage::Stage4), "stage-4");
    assert_eq!(render_vlatai_phonemes("klama", &None), "klama");
    let hyphen = ValsiLujvoPart { kind: ValsiLujvoPartKind::Hyphen, text: "r".to_owned(), rafsi_kind: None };
    assert_eq!(vlatai_lujvo_part_text(&hyphen), "hyphen: r");
    let rafsi = ValsiLujvoPart { kind: ValsiLujvoPartKind::Rafsi, text: "kla".to_owned(), rafsi_kind: None };
    assert_eq!(vlatai_lujvo_part_text(&rafsi), "rafsi: kla (unknown-rafsi)");

    let mut lujvo = word(WordKind::Lujvo);
    lujvo.split = Some("kla-r-tav".to_owned());
    lujvo.parts = vec![rafsi.clone(), hyphen];
    let mut out = String::new();
    render_vlatai_classification_text_with_prefix(&mut out, &ValsiClassification::PlainWord(lujvo), "");
    assert_eq!(
        out,
        "category: lujvo\nphonemes: kláma\nsplit: kla-r-tav\nparts:\n  - rafsi: kla (unknown-rafsi)\n  - hyphen: r\n"
    );

    let zei = ValsiClassification::ZeiCompound {
        left: Box::new(ValsiClassification::PlainWord(word(WordKind::Gismu))),
        link: word(WordKind::Cmavo),
        right: word(WordKind::Cmevla),
    };
    let mut out = String::new();
    render_vlatai_classification_text_with_prefix(&mut out, &zei, "");
    assert_eq!(
        out,
        "category: zei-compound\nleft category: gismu\nleft phonemes: kláma\nlink category: cmavo\nlink phonemes: kláma\nright category: cmevla\nright phonemes: kláma\n"
    );
}

#[test]
fn vlatai_text_joins_analyses() {
    let analyses = vec![
        ValsiAnalysis {
            input: "klama".to_owned(),
            status: ValsiAnalysisStatus::Valid,
            classification: Some(ValsiClassification::PlainWord(word(WordKind::Gismu))),
            diagnostics_text: String::new(),
            words_text: String::new(),
        },
        ValsiAnalysis {
            input: "mi klama".to_owned(),
            status: ValsiAnalysisStatus::NotSingleWord,
            classification: None,
            diagnostics_text: "error: parsed more than one word\n".to_owned(),
            words_text: "[mi] [klama]".to_owned(),
        },
    ];
    assert_eq!(
        render_vlatai_text(&analyses),
        "valsi: klama\nstatus: valid\ncategory: gismu\nphonemes: kláma\n\nvalsi: mi klama\nstatus: not-single-word\nerror: parsed more than one word\nwords: [mi] [klama]\n"
    );
    let d = vlatai_not_single_word_diagnostic("mi klama", 2);
    assert_eq!(d.code, "vlatai.not-single-word");
    assert_eq!(d.message, "input parsed as multiple words");
    assert_eq!(d.label, "parsed more than one word");
    assert_eq!(d.note, "parsed word count: 2");
    assert_eq!(d.span_end, 8);
    let d = vlatai_not_single_word_diagnostic("", 0);
    assert_eq!(d.message, "input did not parse as one word");
    let valid = vlatai_diagnostics(vec!["w1", "w2"], ValsiAnalysisStatus::Valid, None, "x", 1);
    assert_eq!(valid.len(), 2);
    assert!(matches!(valid[0], VlataiDiagnostic::Reported("w1")));
    assert!(matches!(valid[1], VlataiDiagnostic::Reported("w2")));
    let invalid = vlatai_diagnostics(vec!["w1"], ValsiAnalysisStatus::Invalid, Some("bad"), "x", 1);
    assert_eq!(invalid.len(), 2);
    assert!(matches!(invalid[0], VlataiDiagnostic::Reported("w1")));
    assert!(matches!(invalid[1], VlataiDiagnostic::Reported("bad")));
    let several = vlatai_diagnostics(vec!["w1"], ValsiAnalysisStatus::NotSingleWord, None, "mi klama", 2);
    assert_eq!(several.len(), 2);
    assert!(matches!(several[0], VlataiDiagnostic::Reported("w1")));
    match &several[1] {
        VlataiDiagnostic::NotSingleWord(d) => {
            assert_eq!(d.code, "vlatai.not-single-word");
            assert_eq!(d.span_end, 8);
            assert_eq!(d.note, "parsed word count: 2");
        }
        VlataiDiagnostic::Reported(_) => panic!("expected the not-single-word diagnostic"),
    }
    let none: Vec<VlataiDiagnostic<&str>> = vlatai_diagnostics(Vec::new(), ValsiAnalysisStatus::Valid, None, "", 1);
    assert!(none.is_empty());
}

#[test]
fn benchmark_statuses_and_statistics() {
    let mut record = BenchmarkRecord::start(4);
    record.record_iteration(30, CliStatus::Success);
    record.record_iteration(10, CliStatus::ValidMissing);
    record.record_iteration(20, CliStatus::Failure);
    record.record_iteration(41, CliStatus::Success);
    assert_eq!(record.status_counts.final_status(), CliStatus::ValidMissing);
    assert_eq!(
        format_status_counts(&record.status_counts),
        "success=2 failure=1 valid-missing=1 invalid-input=0"
    );
    let stats = wall_time_stats(&record.iteration_wall_times, 200);
    assert_eq!(stats.min, 10);
    assert_eq!(stats.max, 41);
    assert_eq!(stats.median, 25);
    assert_eq!(stats.mean, 25);
    assert_eq!(stats.p95, 41);
    assert_eq!(stats.total, 200);
    let odd = wall_time_stats(&vec![5, 1, 9], 15);
    assert_eq!(odd.median, 5);
    assert_eq!(odd.p95, 9);
    let mut counts = BenchmarkStatusCounts::new();
    assert_eq!(counts.final_status(), CliStatus::Success);
    counts.record(CliStatus::InvalidInput);
    counts.record(CliStatus::Failure);
    assert_eq!(counts.final_status(), CliStatus::InvalidInput);
}

#[test]
fn resource_deltas_saturate_and_format() {
    assert_eq!(counter_delta(Some(5), Some(3)), Some(0));
    assert_eq!(counter_delta(Some(3), Some(5)), Some(2));
    assert_eq!(counter_delta(None, Some(5)), None);
    let mut start = ProcessResourceUsage::unavailable();
    start.minor_page_faults = Some(10);
    start.major_page_faults = Some(1);
    let mut end = start;
    end.minor_page_faults = Some(25);
    end.major_page_faults = Some(1);
    end.voluntary_context_switches = Some(9);
    let delta = ProcessResourceDelta::between(start, end);
    assert_eq!(format_page_faults(&delta), "minor=15 major=0");
    assert_eq!(format_context_switches(&delta), "unavailable");
    assert_eq!(format_block_io(&delta), "unavailable");
}

#[test]
fn setup_requires_a_task_and_reports_progress() {
    let input = SetupInput {
        embedding: false,
        force: false,
        use_precomputed: CliUsePrecomputed::Auto,
        skip_validation: false,
        model: "m".to_owned(),
        index_dir: None,
        model_dir: None,
    };
    assert_eq!(
        check_setup_tasks(&input).unwrap_err().message,
        "Choose at least one setup task, e.g. `jbotci setup --embedding`."
    );
    let progress = SetupProgress {
        kind: "download".to_owned(),
        label: "Downloading".to_owned(),
        detail: String::new(),
        loaded: Some(1536),
        total: Some(1 << 20),
    };
    assert_eq!(cli_setup_progress_detail(&progress), "1.5 KiB / 1.0 MiB");
    let rows = SetupProgress { kind: "embed".to_owned(), ..progress.clone() };
    assert_eq!(cli_setup_progress_detail(&rows), "1536/1048576 rows");
    let unknown = SetupProgress { loaded: None, ..progress.clone() };
    assert_eq!(cli_setup_progress_detail(&unknown), "Downloading");
    let unlabelled = SetupProgress { label: String::new(), ..unknown.clone() };
    assert_eq!(cli_setup_progress_detail(&unlabelled), "unknown");
    let detailed = SetupProgress { detail: "model.onnx".to_owned(), ..unknown };
    assert_eq!(cli_setup_progress_detail(&detailed), "model.onnx");
    let report = SetupReport {
        model_path: None,
        index_root: "/idx".to_owned(),
        pack_id: "p1".to_owned(),
        index_source: "precomputed".to_owned(),
        dictionary_rows: 12,
        cll_rows: 3,
    };
    assert_eq!(
        setup_complete_message(&report),
        "Embedding setup complete.\nmodel: not checked\nindex: /idx\npack: p1\nsource: precomputed\ndictionary rows: 12\nCLL rows: 3"
    );
}

#[test]
fn jvozba_results_alternate_rafsi_colours() {
    let result = JvozbaBuildResult {
        word: "klarcatra".to_owned(),
        segments: vec![
            JvozbaSegment { kind: JvozbaSegmentKind::Rafsi, text: "kla".to_owned() },
            JvozbaSegment { kind: JvozbaSegmentKind::Hyphen, text: "r".to_owned() },
            JvozbaSegment { kind: JvozbaSegmentKind::Rafsi, text: "catra".to_owned() },
        ],
    };
    assert_eq!(render_jvozba_result(&result, false), "klarcatra");
    assert_eq!(
        render_jvozba_result(&result, true),
        "\x1b[32mkla\x1b[39m\x1b[90mr\x1b[39m\x1b[35mcatra\x1b[39m"
    );
}
