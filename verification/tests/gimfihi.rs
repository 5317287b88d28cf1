use jbotci::cli::{GimfihiCliNormalizer, GimfihiCliScorer};
use jbotci::gimfihi::{
    check_gimfihi_scorer_parameters, format_gimfihi_collision, format_gimfihi_rafsi,
    format_nondefault_phonetic_parameters, format_taken_rafsi_sources, gimfihi_request_count,
    render_gimfihi_candidate_row, render_gimfihi_table, trim_float, CandidateRafsi,
    CollisionKind, GimfihiCandidate, GimfihiOutput, GismuCollision, ParameterSetting,
    PhoneticParameterReport, RafsiAvailability,
};

fn candidate() -> GimfihiCandidate {
    GimfihiCandidate {
        word: "klama".to_owned(),
        score_fixed: "0.750000".to_owned(),
        highlighted: true,
        collision: None,
        rafsi: vec![
            CandidateRafsi { form: "kla".to_owned(), availability: RafsiAvailability::Free, taken_by: Vec::new() },
            CandidateRafsi {
                form: "kam".to_owned(),
                availability: RafsiAvailability::OfficialTaken,
                taken_by: vec!["kanla".to_owned(), "kamju".to_owned()],
            },
        ],
    }
}

#[test]
fn trim_float_drops_trailing_zeros_and_point() {
    assert_eq!(trim_float("0.750000"), "0.75");
    assert_eq!(trim_float("2.000000"), "2");
    assert_eq!(trim_float("0.000000"), "0");
    assert_eq!(trim_float("100"), "1");
    assert_eq!(trim_float("10.500"), "10.5");
    assert_eq!(trim_float("."), "0");
}

#[test]
fn taken_rafsi_sources_and_collisions() {
    assert_eq!(format_taken_rafsi_sources(&Vec::new()), "");
    assert_eq!(format_taken_rafsi_sources(&vec!["a".to_owned(), "b".to_owned()]), "(a/b)");
    let identical = GismuCollision {
        kind: CollisionKind::Identical,
        existing_word: "klama".to_owned(),
        existing_word_type: "gismu".to_owned(),
    };
    assert_eq!(format_gimfihi_collision(&identical), "[= existing gismu]");
    let vowel = GismuCollision { kind: CollisionKind::FinalVowel, ..identical.clone() };
    assert_eq!(format_gimfihi_collision(&vowel), "[~ klama: final vowel]");
    let consonant = GismuCollision { kind: CollisionKind::SimilarConsonant, ..identical };
    assert_eq!(format_gimfihi_collision(&consonant), "[~ klama: similar consonant]");
}

#[test]
fn candidate_rows_align_columns() {
    let c = candidate();
    assert_eq!(format_gimfihi_rafsi(&c), "kla:free, kam:official-taken(kanla/kamju)");
    assert_eq!(
        render_gimfihi_candidate_row(&c),
        "*     klama  0.75     kla:free, kam:official-taken(kanla/kamju)"
    );
    let mut plain = candidate();
    plain.highlighted = false;
    plain.word = "kla".to_owned();
    plain.rafsi.clear();
    plain.collision = Some(GismuCollision {
        kind: CollisionKind::FinalVowel,
        existing_word: "klani".to_owned(),
        existing_word_type: "gismu".to_owned(),
    });
    assert_eq!(render_gimfihi_candidate_row(&plain), "      kla    0.75     [~ klani: final vowel] ");
}

fn setting(name: &str, value: &str, is_default: bool) -> ParameterSetting {
    ParameterSetting { name: name.to_owned(), value_fixed: value.to_owned(), is_default }
}

#[test]
fn only_changed_parameters_are_listed() {
    let report = PhoneticParameterReport {
        costs: vec![setting("c-sub", "35.000000", true), setting("c-skip", "12.500000", false)],
        normalizer: GimfihiCliNormalizer::Symmetric,
        normalizer_is_default: false,
        saliences: vec![setting("place", "40.000000", true), setting("voice", "3.000000", false)],
    };
    assert_eq!(
        format_nondefault_phonetic_parameters(&report),
        "parameters: c-skip=12.5, normalizer=symmetric, voice=3"
    );
}

#[test]
fn the_table_lists_candidates_or_says_none_matched() {
    let mut output = GimfihiOutput {
        scorer: GimfihiCliScorer::Classic,
        scorer_name: "classic".to_owned(),
        phonetic_parameters: None,
        winner: Some("klama".to_owned()),
        candidates: vec![candidate()],
        filtered_count: 3,
        candidate_count: 7,
    };
    assert_eq!(
        render_gimfihi_table(&output),
        "winner: klama\ncandidates: 1 shown of 3 passing (7 valid)\nmark  gismu  score     rafsi\n*     klama  0.75     kla:free, kam:official-taken(kanla/kamju)"
    );
    output.scorer = GimfihiCliScorer::Phonetic;
    output.scorer_name = "phonetic".to_owned();
    output.winner = None;
    assert!(render_gimfihi_table(&output).starts_with("scorer: phonetic\nwinner: none\n"));
    output.candidates.clear();
    assert_eq!(render_gimfihi_table(&output), "No gismu candidates matched the selected filters.");
}

#[test]
fn counts_and_scorer_parameters_are_checked() {
    assert_eq!(gimfihi_request_count(None, 10, 100).unwrap(), 10);
    assert_eq!(gimfihi_request_count(Some(0), 10, 100).unwrap_err().message, "`--count` must be greater than 0");
    assert_eq!(gimfihi_request_count(Some(101), 10, 100).unwrap_err().message, "`--count` must be at most 100");
    assert!(check_gimfihi_scorer_parameters(GimfihiCliScorer::Classic, true).is_ok());
    assert!(check_gimfihi_scorer_parameters(GimfihiCliScorer::Phonetic, false).is_ok());
    assert_eq!(
        check_gimfihi_scorer_parameters(GimfihiCliScorer::Classic, false).unwrap_err().message,
        "non-default phonetic parameters require `--scorer phonetic`"
    );
}
