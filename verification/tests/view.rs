use jbotci::web_route::{nav_href, route_from_path, AppRoute};
use jbotci::web_view::{
    absolute_href_for_client, base_path_from_current_path, block_class,
    block_has_incoming_reference, cll_asset_href, cll_dictionary_tooltip_target,
    cll_language_span_class, cll_link_kind_class, cll_media_name,
    cukta_semantic_worker_kind_filters, diagnostic_class, jvozba_segment_class,
    normalize_internal_href, orthography_button_class, parse_vlacku_jvozba_legacy_items,
    parse_vlacku_jvozba_mode, reference_marker_class, reference_matches_hover,
    reference_role_attr, theme_button_class, trim_start_matches_str, view_tab_class,
    vlacku_jvozba_item_from_fields, vlacku_jvozba_mode_class, vlacku_jvozba_mode_value,
    vlacku_mode_class, vlacku_mode_title, vlacku_query_placeholder, vlacku_semantic_worker_limit,
    CllLanguageSpanKind, CllLinkKind, DiagnosticSeverity, DictionaryTooltipTarget,
    HoveredReference, ReferenceMarker, ReferenceMarkerRole, VlackuJvozbaItemKind,
    VlackuJvozbaMode, VlackuJvozbaSegmentTone, VlackuWebMode,
};

#[test]
fn internal_links_stay_in_the_application() {
    assert_eq!(
        normalize_internal_href("  /jbotci/vlacku?q=a#x ", "/jbotci", None),
        Some("/jbotci/vlacku?q=a#x".to_owned())
    );
    assert_eq!(
        normalize_internal_href("https://ex.org/jbotci/cukta", "/jbotci/", Some("https://ex.org")),
        Some("/jbotci/cukta".to_owned())
    );
    assert_eq!(normalize_internal_href("https://ex.org/jbotci/cukta", "/jbotci", None), None);
    assert_eq!(
        normalize_internal_href("https://other.org/jbotci/cukta", "/jbotci", Some("https://ex.org")),
        None
    );
    assert_eq!(normalize_internal_href("/", "/", None), Some("/".to_owned()));
    assert_eq!(normalize_internal_href("/settings/", "", None), Some("/settings/".to_owned()));
}

#[test]
fn other_links_are_left_to_the_browser() {
    for href in ["", "   ", "#top", "mailto:a@b.c", "javascript:void(0)", "//cdn.example/x", "vlacku", "ftp://x"] {
        assert_eq!(normalize_internal_href(href, "/", Some("https://ex.org")), None, "{href}");
    }
    assert_eq!(normalize_internal_href("/jbotci/assets/main.css", "/jbotci", None), None);
    assert_eq!(normalize_internal_href("/other/page", "/jbotci", None), None);
    assert_eq!(normalize_internal_href("/jbotci/unknown", "/jbotci", None), None);
}

#[test]
fn absolute_links_use_the_origin() {
    assert_eq!(absolute_href_for_client("/a?b", Some("https://x.org//")), "https://x.org/a?b");
    assert_eq!(absolute_href_for_client("rel", Some("https://x.org")), "rel");
    assert_eq!(absolute_href_for_client("/a", None), "/a");
}

#[test]
fn base_path_follows_the_page_path() {
    assert_eq!(base_path_from_current_path("/jbotci"), "/jbotci");
    assert_eq!(base_path_from_current_path("/jbotci/cukta"), "/jbotci");
    assert_eq!(base_path_from_current_path("/jbotcix"), "/");
    assert_eq!(base_path_from_current_path("/"), "/");
}

#[test]
fn leading_copies_are_trimmed_like_std() {
    for (s, p) in [("aaab", "a"), ("abab", "ab"), ("x", ""), ("", "a"), ("abc", "abcd"), ("aXa", "a")] {
        assert_eq!(trim_start_matches_str(s, p), s.trim_start_matches(p), "{s} {p}");
    }
}

#[test]
fn grammar_media_names_and_assets() {
    for src in ["assets/media/assets/media/logo.png", "cll/media/x.gif", "media/assets/cll/media/y.png", "z.png"] {
        let expected = src
            .trim_start_matches("assets/media/")
            .trim_start_matches("media/")
            .trim_start_matches("assets/cll/media/")
            .trim_start_matches("cll/media/");
        assert_eq!(cll_media_name(src), expected);
    }
    assert_eq!(
        cll_asset_href("/jbotci/", "assets/cll/media/unknown.png", None),
        "/jbotci/assets/cll/cll/media/unknown.png"
    );
    assert_eq!(cll_asset_href("/", "media/logo.png", Some("/assets/logo-1.png".to_owned())), "/assets/logo-1.png");
}

#[test]
fn dictionary_tooltips_of_grammar_links() {
    assert_eq!(
        cll_dictionary_tooltip_target("../vlacku/klama"),
        Some(DictionaryTooltipTarget::Word("klama".to_owned()))
    );
    assert_eq!(
        cll_dictionary_tooltip_target("../vlacku?mode=rafsi&q=kla&q=lam"),
        Some(DictionaryTooltipTarget::Rafsi("lam".to_owned()))
    );
    assert_eq!(
        cll_dictionary_tooltip_target("../vlacku?q=kla&mode=rafsi"),
        Some(DictionaryTooltipTarget::Rafsi("kla".to_owned()))
    );
    assert_eq!(cll_dictionary_tooltip_target("../vlacku?q=kla"), None);
    assert_eq!(cll_dictionary_tooltip_target("../vlacku?mode=rafsi"), None);
    assert_eq!(cll_dictionary_tooltip_target("../gentufa?text=coi"), None);
}

#[test]
fn semantic_search_kinds_follow_the_targets() {
    let targets = vec!["  Sections ".to_owned(), "EXAMPLE".to_owned(), "sections".to_owned(), "x".to_owned()];
    assert_eq!(cukta_semantic_worker_kind_filters(&targets), vec!["section", "example"]);
    assert_eq!(cukta_semantic_worker_kind_filters(&Vec::new()), vec!["section", "paragraph", "example"]);
    assert_eq!(
        cukta_semantic_worker_kind_filters(&vec!["foo".to_owned()]),
        vec!["section", "paragraph", "example"]
    );
}

#[test]
fn semantic_hit_limit_is_one_more_within_the_maximum() {
    assert_eq!(vlacku_semantic_worker_limit(5, 10), 6);
    assert_eq!(vlacku_semantic_worker_limit(10, 10), 10);
    assert_eq!(vlacku_semantic_worker_limit(usize::MAX, usize::MAX), usize::MAX);
}

fn legacy_oracle(raw: &str) -> Vec<(VlackuJvozbaItemKind, String)> {
    raw.lines()
        .filter_map(|line| {
            let (kind, value) = line.split_once('\t')?;
            let kind = match kind {
                "word" => VlackuJvozbaItemKind::Word,
                "rafsi" => VlackuJvozbaItemKind::FixedRafsi,
                _ => return None,
            };
            (!value.is_empty()).then(|| (kind, value.to_owned()))
        })
        .collect()
}

#[test]
fn stored_builder_pieces_of_the_older_format() {
    for raw in [
        "word\tklama\r\nrafsi\tlam\nbad\tx\nword\t\nword\tbroda",
        "word\tx\r",
        "word\ta\n\nrafsi\tb\n",
        "",
        "\n",
        "rafsi\tx\r\r\n",
    ] {
        let items = parse_vlacku_jvozba_legacy_items(raw);
        let got: Vec<(VlackuJvozbaItemKind, String)> =
            items.iter().map(|item| (item.kind, item.value.clone())).collect();
        assert_eq!(got, legacy_oracle(raw), "{raw:?}");
        assert!(items.iter().all(|item| item.source.is_none() && item.indent_level == 0));
    }
}

#[test]
fn stored_builder_pieces_of_the_current_format() {
    let item = vlacku_jvozba_item_from_fields(Some("fixed-rafsi"), Some("  lam "), Some("  "), Some(2)).unwrap();
    assert_eq!(item.kind, VlackuJvozbaItemKind::FixedRafsi);
    assert_eq!(item.value, "lam");
    assert_eq!(item.source, None);
    assert_eq!(item.indent_level, 2);
    let item = vlacku_jvozba_item_from_fields(Some("word"), Some("klama"), Some(" gismu "), None).unwrap();
    assert_eq!(item.kind, VlackuJvozbaItemKind::Word);
    assert_eq!(item.source, Some("gismu".to_owned()));
    assert_eq!(item.indent_level, 0);
    assert!(vlacku_jvozba_item_from_fields(Some("other"), Some("x"), None, None).is_none());
    assert!(vlacku_jvozba_item_from_fields(Some("word"), Some("   "), None, None).is_none());
    assert!(vlacku_jvozba_item_from_fields(None, Some("x"), None, None).is_none());
    assert!(vlacku_jvozba_item_from_fields(Some("rafsi"), None, None, None).is_none());
}

#[test]
fn builder_mode_round_trips_through_storage() {
    for mode in [VlackuJvozbaMode::Lujvo, VlackuJvozbaMode::Cmevla] {
        assert_eq!(parse_vlacku_jvozba_mode(vlacku_jvozba_mode_value(mode)), Some(mode));
    }
    assert_eq!(parse_vlacku_jvozba_mode("Lujvo"), None);
}

#[test]
fn control_classes_and_titles() {
    assert_eq!(view_tab_class(true), "view-tab active");
    assert_eq!(view_tab_class(false), "view-tab");
    assert_eq!(theme_button_class(true), "theme-btn is-active");
    assert_eq!(orthography_button_class(true, true), "theme-btn orthography-btn is-zbalermorna is-active");
    assert_eq!(orthography_button_class(false, true), "theme-btn orthography-btn is-zbalermorna");
    assert_eq!(orthography_button_class(true, false), "theme-btn orthography-btn is-active");
    assert_eq!(orthography_button_class(false, false), "theme-btn orthography-btn");
    assert_eq!(vlacku_mode_class(true), "dictionary-mode-toggle active");
    assert_eq!(vlacku_jvozba_mode_class(false), "dictionary-jvozba-mode-toggle");
    assert_eq!(vlacku_mode_title(VlackuWebMode::Meaning, true), "Semantic search is unavailable in this browser");
    assert_eq!(vlacku_mode_title(VlackuWebMode::Rafsi, false), "Find the word by rafsi");
    assert_eq!(vlacku_query_placeholder(VlackuWebMode::Sound), "Lojban or [aj piː ej]");
    assert_eq!(jvozba_segment_class(VlackuJvozbaSegmentTone::RafsiB), "dictionary-jvozba-output-segment is-rafsi-b");
    assert_eq!(diagnostic_class(DiagnosticSeverity::Error), "diagnostic error");
    assert_eq!(diagnostic_class(DiagnosticSeverity::Advice), "diagnostic");
    assert_eq!(cll_language_span_class(CllLanguageSpanKind::JboPhrase), "spa-cll-jbophrase");
    assert_eq!(cll_link_kind_class(CllLinkKind::Asset), "spa-cll-link-asset");
    assert_eq!(block_class(true, false), "block block-leaf");
    assert_eq!(block_class(false, true), "block block-nonleaf block-elided");
    assert_eq!(reference_role_attr(ReferenceMarkerRole::Referent), "referent");
}

fn marker(role: ReferenceMarkerRole, base: &str, full: &str, has_slot: bool) -> ReferenceMarker {
    ReferenceMarker { role, base_key: base.to_owned(), full_key: full.to_owned(), has_slot }
}

#[test]
fn reference_markers_light_up_for_the_hovered_variable() {
    let hovered_referent = Some(HoveredReference {
        role: ReferenceMarkerRole::Referent,
        base_key: "ko'a".to_owned(),
        full_key: "ko'a.1".to_owned(),
    });
    let source = marker(ReferenceMarkerRole::Reference, "ko'a", "ko'a", false);
    let same_place = marker(ReferenceMarkerRole::Referent, "ko'a", "ko'a.1", true);
    let other_place = marker(ReferenceMarkerRole::Referent, "ko'a", "ko'a.2", true);
    let other_var = marker(ReferenceMarkerRole::Reference, "ko'e", "ko'e", false);
    assert!(reference_matches_hover(&source, &hovered_referent));
    assert!(reference_matches_hover(&same_place, &hovered_referent));
    assert!(!reference_matches_hover(&other_place, &hovered_referent));
    assert!(!reference_matches_hover(&other_var, &hovered_referent));
    assert!(!reference_matches_hover(&source, &None));
    let hovered_reference = Some(HoveredReference {
        role: ReferenceMarkerRole::Reference,
        base_key: "ko'a".to_owned(),
        full_key: "ko'a".to_owned(),
    });
    assert!(reference_matches_hover(&other_place, &hovered_reference));
    assert_eq!(
        reference_marker_class(&same_place, &hovered_referent),
        "ref-var ref-target place-var ref-highlight place-highlight"
    );
    assert_eq!(reference_marker_class(&other_var, &hovered_referent), "ref-var ref-source");
    assert!(block_has_incoming_reference(&vec![source.clone(), same_place.clone()]));
    assert!(!block_has_incoming_reference(&vec![source, other_var]));
    assert!(!block_has_incoming_reference(&Vec::new()));
}

#[test]
fn navigation_links_lead_to_their_page() {
    for current in ["/", "/jbotci", "/jbotci/cukta/section/1", "/gentufa"] {
        let base = base_path_from_current_path(current);
        for route in [AppRoute::Gentufa, AppRoute::Settings, AppRoute::Cukta, AppRoute::Vlacku] {
            assert_eq!(route_from_path(&nav_href(&base, route)), route, "{current}");
        }
    }
}

#[test]
fn small_view_helpers() {
    assert_eq!(jbotci::web_view::cukta_semantic_worker_limit(0, 50), 2);
    assert_eq!(jbotci::web_view::cukta_semantic_worker_limit(10, 50), 11);
    assert_eq!(jbotci::web_view::cukta_semantic_worker_limit(500, 50), 50);
    assert_eq!(jbotci::web_view::cukta_semantic_worker_limit(5, 1), 1);
    for body in ["/#/", "/a b#/", "/ab/", "/#", "//", "/", "", "a#/"] {
        let expected = body
            .strip_prefix('/')
            .and_then(|inner| inner.strip_suffix('/'))
            .and_then(|inner| inner.strip_suffix('#'))
            .map(|inner| (format!("/{inner}"), "/".to_owned()));
        assert_eq!(jbotci::web_view::cll_ebnf_elidable_hash_pieces(body), expected, "{body}");
    }
    assert!(jbotci::web_view::tree_row_is_elided(&vec![true, true]));
    assert!(!jbotci::web_view::tree_row_is_elided(&vec![true, false]));
    assert!(!jbotci::web_view::tree_row_is_elided(&Vec::new()));
    assert_eq!(jbotci::web_view::repeated_parse_tree_template(12), "repeat(12, max-content)");
    assert_eq!(jbotci::web_view::pressed_attr(true), "true");
    assert_eq!(jbotci::web_view::pressed_attr(false), "false");
}
