use jbotci::cli::{CliStatus, CliSumtiPlaces, GlyphStyle};
use jbotci::vlacku::{
    cli_status_from_vlacku_outcome, is_valid_vlacku_word_type_filter, parse_vlacku_word_types,
    semantic_vlacku_query, validate_vlacku_input, validate_vlacku_request_value,
    word_type_pieces, VlackuInput, VlackuOutcome, VlackuRequest, WordTypeFilter, WordTypePiece,
};
use jbotci::vlacku_render::{
    format_vlacku_votes, is_vlacku_word_link, lujvo_separator, push_rendered_vlacku_detail_lines,
    render_vlacku_card, render_vlacku_decomposition, render_vlacku_output,
    render_vlacku_output_with_options, render_vlacku_plain_or_indexed_places,
    render_vlacku_raw_place_span, render_vlacku_rich_text, render_vlacku_word_links,
    vlacku_header_type, vlacku_output_is_printed, vlacku_wrap_atoms, wrap_vlacku_detail_line,
    PlaceLine, PlaceSlots, VlackuCard, VlackuCompositionKind, VlackuCompositionPiece,
    VlackuRenderOptions, VlackuSearchOutput,
};

fn slots() -> PlaceSlots {
    PlaceSlots { open: "[".to_owned(), close: "]".to_owned() }
}

fn options(color: bool, places: CliSumtiPlaces, width: Option<usize>) -> VlackuRenderOptions {
    VlackuRenderOptions {
        color,
        glyphs: GlyphStyle::Unicode,
        output_terminal_width: width,
        sumti_places: places,
        show_etymology: false,
        slots: slots(),
    }
}

fn line(text: &str, indexed: &str) -> PlaceLine {
    PlaceLine { text: text.to_owned(), indexed: indexed.to_owned() }
}

fn card() -> VlackuCard {
    VlackuCard {
        word: "klama".to_owned(),
        author: None,
        word_type: "gismu".to_owned(),
        word_type_normalized: "gismu".to_owned(),
        selmaho: None,
        similarity_percent: None,
        votes: Some(5),
        vote_display: "+5".to_owned(),
        is_official: false,
        rafsi: vec!["kla".to_owned()],
        decomposition: Vec::new(),
        glosses: vec!["come".to_owned(), "go".to_owned()],
        glosses_indexed: "come; go".to_owned(),
        definition: vec![line("$x_1$ comes to $x_2$", "x[1] comes to x[2]")],
        notes: vec![line("  ", "  ")],
        etymology: Some(vec![line("from {klama}", "from {klama}")]),
    }
}

fn input() -> VlackuInput {
    VlackuInput {
        count: None,
        ascii: false,
        word_types: Vec::new(),
        min_votes: None,
        min_similarity_in_range: None,
        sumti_places: CliSumtiPlaces::Index,
        decompose_lujvo: false,
        show_etymology: false,
        requests: vec![VlackuRequest::Valsi("klama".to_owned())],
        query: Vec::new(),
    }
}

#[test]
fn outcomes_map_to_statuses() {
    assert_eq!(cli_status_from_vlacku_outcome(VlackuOutcome::Found), CliStatus::Success);
    assert_eq!(cli_status_from_vlacku_outcome(VlackuOutcome::ValidMissing), CliStatus::ValidMissing);
    assert_eq!(cli_status_from_vlacku_outcome(VlackuOutcome::Invalid), CliStatus::InvalidInput);
}

#[test]
fn blank_request_values_are_refused() {
    let err = validate_vlacku_request_value(&VlackuRequest::Rafsi("  ".to_owned())).unwrap_err();
    assert_eq!(err.message, "--rafsi requires a non-empty value");
    let err = validate_vlacku_request_value(&VlackuRequest::Meaning(String::new())).unwrap_err();
    assert_eq!(err.message, "semantic query requires a non-empty value");
    assert!(validate_vlacku_request_value(&VlackuRequest::Sound("kl".to_owned())).is_ok());
}

#[test]
fn word_types_are_parsed_deduplicated_and_checked() {
    let raw = vec!["gismu,lujvo".to_owned(), ",gismu".to_owned()];
    assert_eq!(word_type_pieces(&raw), vec!["gismu", "lujvo", "", "gismu"]);
    let pieces = vec![
        WordTypePiece { normalized: "gismu".to_owned(), filter: Some(WordTypeFilter::Gismu) },
        WordTypePiece { normalized: "lujvo".to_owned(), filter: Some(WordTypeFilter::Lujvo) },
        WordTypePiece { normalized: String::new(), filter: None },
        WordTypePiece { normalized: "gismu".to_owned(), filter: Some(WordTypeFilter::Gismu) },
    ];
    assert_eq!(
        parse_vlacku_word_types(&raw, &pieces).unwrap(),
        vec![WordTypeFilter::Gismu, WordTypeFilter::Lujvo]
    );
    let bad = vec![WordTypePiece { normalized: "zei".to_owned(), filter: None }];
    assert_eq!(
        parse_vlacku_word_types(&raw, &bad).unwrap_err().message,
        "Unknown `--word-type` value: zei. Use gismu, lujvo, cmavo, cmevla, fu'ivla, or brivla."
    );
    let other = vec![WordTypePiece { normalized: "x".to_owned(), filter: Some(WordTypeFilter::Other) }];
    assert!(parse_vlacku_word_types(&raw, &other).is_err());
    let empty = vec![WordTypePiece { normalized: String::new(), filter: None }];
    assert_eq!(
        parse_vlacku_word_types(&vec![",".to_owned()], &empty).unwrap_err().message,
        "`--word-type` requires at least one non-empty type"
    );
    assert!(parse_vlacku_word_types(&Vec::new(), &Vec::new()).unwrap().is_empty());
    assert!(!is_valid_vlacku_word_type_filter(WordTypeFilter::Other));
    assert!(is_valid_vlacku_word_type_filter(WordTypeFilter::Brivla));
}

#[test]
fn vlacku_input_rules_in_order() {
    assert!(validate_vlacku_input(&input(), &Vec::new()).is_ok());
    let mut i = input();
    i.count = Some(0);
    assert_eq!(validate_vlacku_input(&i, &Vec::new()).unwrap_err().message, "`--count` must be greater than 0");
    let mut i = input();
    i.min_similarity_in_range = Some(false);
    assert_eq!(
        validate_vlacku_input(&i, &Vec::new()).unwrap_err().message,
        "`--min-similarity` must be between 0 and 100"
    );
    let mut i = input();
    i.requests.clear();
    assert_eq!(
        validate_vlacku_input(&i, &Vec::new()).unwrap_err().message,
        "No query provided for vlacku. Use --valsi, --rafsi, --lujvo, or --sound."
    );
    let mut i = input();
    i.query = vec!["go".to_owned()];
    assert!(validate_vlacku_input(&i, &Vec::new()).unwrap_err().message.starts_with("Do not pass"));
    let mut i = input();
    i.requests = vec![VlackuRequest::Sound("a".to_owned()), VlackuRequest::Sound("b".to_owned())];
    assert_eq!(validate_vlacku_input(&i, &Vec::new()).unwrap_err().message, "`--sound` may be specified only once");
    let mut i = input();
    i.requests.push(VlackuRequest::Sound("a".to_owned()));
    assert_eq!(
        validate_vlacku_input(&i, &Vec::new()).unwrap_err().message,
        "`--sound` cannot be combined with --valsi, --rafsi, or --lujvo"
    );
    let mut i = input();
    i.min_similarity_in_range = Some(true);
    assert_eq!(
        validate_vlacku_input(&i, &Vec::new()).unwrap_err().message,
        "`--min-similarity` is only valid with `--sound` or semantic search"
    );
    let mut i = input();
    i.requests.push(VlackuRequest::Lujvo(" ".to_owned()));
    assert_eq!(validate_vlacku_input(&i, &Vec::new()).unwrap_err().message, "--lujvo requires a non-empty value");
}

#[test]
fn semantic_query_comes_from_the_positional_words_or_one_meaning() {
    let mut i = input();
    assert_eq!(semantic_vlacku_query(&i), None);
    i.requests.clear();
    i.query = vec!["to".to_owned(), "go".to_owned()];
    assert_eq!(semantic_vlacku_query(&i), Some("to go".to_owned()));
    i.query.clear();
    assert_eq!(semantic_vlacku_query(&i), None);
    i.requests = vec![VlackuRequest::Meaning("moving".to_owned())];
    assert_eq!(semantic_vlacku_query(&i), Some("moving".to_owned()));
}

#[test]
fn raw_place_spans_colour_their_parts() {
    assert_eq!(render_vlacku_raw_place_span("x_1=a", false), "$x_1=a$");
    assert_eq!(
        render_vlacku_raw_place_span("a=b", true),
        "\x1b[90m$\x1b[39m\x1b[36ma\x1b[39m\x1b[90m=\x1b[39m\x1b[36mb\x1b[39m\x1b[90m$\x1b[39m"
    );
    assert_eq!(render_vlacku_raw_place_span("a=", true), "\x1b[90m$\x1b[39m\x1b[36ma\x1b[39m\x1b[90m=\x1b[39m\x1b[90m$\x1b[39m");
}

#[test]
fn word_links_and_plain_braces() {
    let o = options(true, CliSumtiPlaces::Raw, None);
    assert_eq!(
        render_vlacku_word_links("a{ klama }", &o),
        "\x1b[37ma\x1b[39m\x1b[90m{\x1b[39m\x1b[33mklama\x1b[39m\x1b[90m}\x1b[39m"
    );
    assert_eq!(
        render_vlacku_word_links("{two words}", &o),
        "\x1b[37m\x1b[39m\x1b[37m{two words}\x1b[39m"
    );
    assert_eq!(render_vlacku_word_links("open {only", &o), "\x1b[37mopen {only\x1b[39m");
    assert!(is_vlacku_word_link("klama"));
    assert!(!is_vlacku_word_link(""));
    assert!(!is_vlacku_word_link("a b"));
}

#[test]
fn indexed_places_are_picked_out() {
    let o = options(true, CliSumtiPlaces::Index, None);
    assert_eq!(
        render_vlacku_plain_or_indexed_places("x[1] y", &o),
        "\x1b[37mx\x1b[39m\x1b[90m[\x1b[39m\x1b[36m1\x1b[39m\x1b[90m]\x1b[39m\x1b[37m y\x1b[39m"
    );
    assert_eq!(
        render_vlacku_plain_or_indexed_places("x[a]", &o),
        "\x1b[37mx\x1b[39m\x1b[37m[\x1b[39m\x1b[37ma]\x1b[39m"
    );
    assert_eq!(
        render_vlacku_plain_or_indexed_places("x[1", &o),
        "\x1b[37mx\x1b[39m\x1b[37m[1\x1b[39m"
    );
    let raw = options(true, CliSumtiPlaces::Raw, None);
    assert_eq!(render_vlacku_plain_or_indexed_places("x[1]", &raw), "\x1b[37mx[1]\x1b[39m");
}

#[test]
fn rich_text_without_colour_keeps_the_text() {
    let o = options(false, CliSumtiPlaces::Index, None);
    let text = "see {klama} and $x_1=a$ x[2] $open";
    assert_eq!(render_vlacku_rich_text(text, &o), text);
}

#[test]
fn wrap_atoms_keep_place_spans_together() {
    assert_eq!(vlacku_wrap_atoms("  $x_1$, foo  bar "), vec!["$x_1$,", "foo", "bar"]);
    assert_eq!(vlacku_wrap_atoms("$a b$c d"), vec!["$a b$c", "d"]);
    assert_eq!(vlacku_wrap_atoms("$open end"), vec!["$open", "end"]);
    assert!(vlacku_wrap_atoms("   ").is_empty());
}

#[test]
fn detail_lines_wrap_greedily() {
    assert_eq!(wrap_vlacku_detail_line("aaa bbb ccc", None), vec!["aaa bbb ccc"]);
    assert_eq!(wrap_vlacku_detail_line("aaa bbb ccc", Some(10)), vec!["aaa", "bbb", "ccc"]);
    assert_eq!(wrap_vlacku_detail_line("aaa bbb ccc", Some(12)), vec!["aaa bbb", "ccc"]);
    assert_eq!(wrap_vlacku_detail_line("aaa bbb ccc", Some(15)), vec!["aaa bbb ccc"]);
    assert_eq!(wrap_vlacku_detail_line("abcdefghij k", Some(6)), vec!["abcdefghij", "k"]);
    assert_eq!(wrap_vlacku_detail_line("      ", Some(6)), vec![""]);
    let mut lines = vec!["head".to_owned()];
    push_rendered_vlacku_detail_lines(&mut lines, "aaa bbb", &options(false, CliSumtiPlaces::Raw, Some(8)));
    assert_eq!(lines, vec!["head", "    aaa", "    bbb"]);
}

#[test]
fn headers_votes_and_decomposition() {
    let mut c = card();
    assert_eq!(vlacku_header_type(&c), "gismu");
    c.word_type = "cmavo".to_owned();
    c.word_type_normalized = "cmavo".to_owned();
    c.selmaho = Some("KOhA".to_owned());
    assert_eq!(vlacku_header_type(&c), "cmavo: KOhA");
    c.selmaho = Some(" ".to_owned());
    assert_eq!(vlacku_header_type(&c), "cmavo");
    let mut untyped = card();
    untyped.word_type = String::new();
    untyped.word_type_normalized = String::new();
    assert_eq!(vlacku_header_type(&untyped), "unknown");
    assert_eq!(format_vlacku_votes("∞", true, GlyphStyle::Ascii), "official");
    assert_eq!(format_vlacku_votes("∞", true, GlyphStyle::Unicode), "∞");
    assert_eq!(format_vlacku_votes("+3", false, GlyphStyle::Ascii), "+3");
    assert_eq!(lujvo_separator(GlyphStyle::Unicode), "·");
    assert_eq!(lujvo_separator(GlyphStyle::Ascii), "~");
    let pieces = vec![
        VlackuCompositionPiece { kind: VlackuCompositionKind::Rafsi, surface: "kla".to_owned(), surface_rendered: None },
        VlackuCompositionPiece { kind: VlackuCompositionKind::Hyphen, surface: "r".to_owned(), surface_rendered: Some("ŕ".to_owned()) },
        VlackuCompositionPiece { kind: VlackuCompositionKind::Rafsi, surface: "tav".to_owned(), surface_rendered: None },
    ];
    assert_eq!(render_vlacku_decomposition(&pieces, false, GlyphStyle::Ascii), "kla~ŕ~tav");
}

#[test]
fn a_card_renders_its_sections() {
    let o = options(false, CliSumtiPlaces::Index, None);
    assert_eq!(
        render_vlacku_card(1, &card(), &o),
        "1. klama | gismu | votes: +5\n  rafsi: kla\n  glosses:\n    come; go\n  definitions:\n    x[1] comes to x[2]\n"
    );
    let mut c = card();
    c.author = Some("la gleki".to_owned());
    c.similarity_percent = Some(87);
    c.notes = vec![line("see {klama}", "see {klama}"), line("", "")];
    let mut o = options(false, CliSumtiPlaces::Raw, None);
    o.show_etymology = true;
    assert_eq!(
        render_vlacku_card(2, &c, &o),
        "2. klama | by: la gleki | gismu | similarity: 87% | votes: +5\n  rafsi: kla\n  glosses:\n    come; go\n  definitions:\n    $x_1$ comes to $x_2$\n  notes:\n    see {klama}\n    \n  etymology:\n    from {klama}\n"
    );
}

#[test]
fn search_output_numbers_cards_or_says_nothing_was_found() {
    let empty = VlackuSearchOutput { cards: Vec::new(), outcome: VlackuOutcome::ValidMissing, diagnostics: Vec::new() };
    assert_eq!(render_vlacku_output(&empty, false, GlyphStyle::Unicode, &slots()), "No matches found.\n");
    assert!(vlacku_output_is_printed(&empty));
    let invalid = VlackuSearchOutput { cards: Vec::new(), outcome: VlackuOutcome::Invalid, diagnostics: Vec::new() };
    assert!(!vlacku_output_is_printed(&invalid));
    let two = VlackuSearchOutput { cards: vec![card(), card()], outcome: VlackuOutcome::Found, diagnostics: Vec::new() };
    let text = render_vlacku_output_with_options(&two, &options(false, CliSumtiPlaces::Index, None));
    assert!(text.starts_with("1. klama"));
    assert!(text.contains("\n\n2. klama"));
    assert!(text.ends_with("x[2]\n\n"));
}
