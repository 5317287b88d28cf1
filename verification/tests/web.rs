use jbotci::web_route::{
    has_app_asset_extension, is_app_route_path_for_client, nav_href, parse_script, parse_theme,
    query_has_key, resolved_href_with_base_path, route_from_path, script_class,
    scroll_storage_key, split_href, strip_base_path_for_client, theme_class, AppRoute,
    GentufaScript, ThemeMode,
};
use jbotci::web_state::{
    cukta_toc_expansion_with_node_state, cukta_toc_node_expanded_with_default,
    toc_node_expanded, AsyncActivityState, AsyncTaskKind, CuktaTocExpansionState,
    GENTUFA_URL_DEBOUNCE_MS, VLACKU_SEARCH_DEBOUNCE_MS, VLACKU_URL_DEBOUNCE_MS,
};
use jbotci::web_text::{
    blocks_grid_row_template, class_names, math_alphanumeric_stem, math_monospace_git_commit,
    topbar_activity_class, topbar_header_class, topbar_link_class, TopbarSettingsLayout,
};

#[test]
fn git_commit_display_uses_math_monospace_hex() {
    assert_eq!(math_monospace_git_commit("f4a90c1"), "𝚏𝟺𝚊𝟿𝟶𝚌𝟷");
}

#[test]
fn async_activity_tracks_overlapping_tasks_by_id() {
    let mut activity = AsyncActivityState::default();

    let gentufa_id = activity.begin(AsyncTaskKind::Gentufa);
    let cukta_id = activity.begin(AsyncTaskKind::Cukta);

    assert_ne!(gentufa_id, cukta_id);
    assert!(activity.is_active());
    assert!(activity.has_kind(AsyncTaskKind::Gentufa));
    assert!(activity.has_kind(AsyncTaskKind::Cukta));

    assert!(activity.finish(gentufa_id));
    assert!(activity.is_active());
    assert!(!activity.has_kind(AsyncTaskKind::Gentufa));
    assert!(activity.has_kind(AsyncTaskKind::Cukta));

    assert!(activity.finish(cukta_id));
    assert!(!activity.is_active());
}

#[test]
fn async_activity_finish_is_idempotent_for_cleanup_paths() {
    let mut activity = AsyncActivityState::default();
    let task_id = activity.begin(AsyncTaskKind::Export);

    assert!(activity.finish(task_id));
    assert!(!activity.finish(task_id));
    assert!(!activity.finish(task_id + 1));
    assert!(!activity.is_active());
}

#[test]
fn async_activity_ids_start_at_one_and_saturate() {
    let mut activity = AsyncActivityState::default();
    assert_eq!(activity.begin(AsyncTaskKind::Vlacku), 1);
    assert_eq!(activity.begin(AsyncTaskKind::Settings), 2);
    let mut full = AsyncActivityState { next_task_id: u64::MAX, active_tasks: Vec::new() };
    assert_eq!(full.begin(AsyncTaskKind::Gentufa), u64::MAX);
    assert_eq!(full.next_task_id, u64::MAX);
}

#[test]
fn finishing_the_newest_task_restores_the_running_tasks() {
    let mut activity = AsyncActivityState::default();
    let first = activity.begin(AsyncTaskKind::Gentufa);
    let before = activity.active_tasks.clone();
    let second = activity.begin(AsyncTaskKind::Cukta);
    assert!(activity.finish(second));
    assert_eq!(activity.active_tasks, before);
    assert!(activity.finish(first));
}

#[test]
fn vlacku_search_debounce_is_longer_than_url_debounce() {
    assert_eq!(VLACKU_SEARCH_DEBOUNCE_MS, 900);
    assert!(VLACKU_SEARCH_DEBOUNCE_MS > VLACKU_URL_DEBOUNCE_MS);
    assert!(GENTUFA_URL_DEBOUNCE_MS > VLACKU_URL_DEBOUNCE_MS);
}

#[test]
fn blocks_grid_row_template_uses_compact_rows() {
    assert_eq!(
        blocks_grid_row_template(3, true),
        "minmax(var(--blocks-compact-min-height), auto) minmax(var(--blocks-compact-min-height), auto) minmax(var(--blocks-compact-min-height), auto) auto"
    );
}

#[test]
fn blocks_grid_row_template_without_rows_is_auto() {
    assert_eq!(blocks_grid_row_template(0, false), "auto");
    assert_eq!(blocks_grid_row_template(0, true), "auto");
    assert_eq!(
        blocks_grid_row_template(1, false),
        "minmax(var(--blocks-compact-min-height), auto)"
    );
}

#[test]
fn top_level_routes_accept_trailing_slashes() {
    assert_eq!(route_from_path("/jbotci/cukta/"), AppRoute::Cukta);
    assert_eq!(route_from_path("/jbotci/vlacku/"), AppRoute::Vlacku);
    assert_eq!(route_from_path("/jbotci/settings/"), AppRoute::Settings);
}

#[test]
fn routes_of_nested_pages() {
    assert_eq!(route_from_path("/"), AppRoute::Gentufa);
    assert_eq!(route_from_path("/jbotci"), AppRoute::Gentufa);
    assert_eq!(route_from_path("/cukta/section/chapter-tour"), AppRoute::Cukta);
    assert_eq!(route_from_path("/cukta/index"), AppRoute::Cukta);
    assert_eq!(route_from_path("/vlacku/klama"), AppRoute::Vlacku);
    assert_eq!(route_from_path("/cukta/other"), AppRoute::Gentufa);
    assert_eq!(route_from_path("/unknown"), AppRoute::Gentufa);
}

#[test]
fn nav_links_respect_the_base_path() {
    assert_eq!(nav_href("/", AppRoute::Cukta), "/cukta");
    assert_eq!(nav_href("/jbotci", AppRoute::Vlacku), "/jbotci/vlacku");
    assert_eq!(nav_href("/jbotci", AppRoute::Settings), "/jbotci/settings");
}

#[test]
fn cukta_toc_manual_expansion_survives_active_default_changes() {
    let state = CuktaTocExpansionState::default();
    assert!(!cukta_toc_node_expanded_with_default(
        "chapter-tour",
        false,
        &state
    ));

    let state = cukta_toc_expansion_with_node_state(&state, "chapter-tour", false, true);

    assert!(cukta_toc_node_expanded_with_default(
        "chapter-tour",
        false,
        &state
    ));
    assert!(cukta_toc_node_expanded_with_default(
        "chapter-tour",
        true,
        &state
    ));
}

#[test]
fn cukta_toc_default_matching_toggle_prunes_override() {
    let state = CuktaTocExpansionState::default();
    let state = cukta_toc_expansion_with_node_state(&state, "chapter-tour", false, true);
    let state = cukta_toc_expansion_with_node_state(&state, "chapter-tour", false, false);

    assert!(state.expanded.is_empty());
    assert!(state.collapsed.is_empty());
    assert!(!cukta_toc_node_expanded_with_default(
        "chapter-tour",
        false,
        &state
    ));
}

#[test]
fn toc_collapse_against_default_and_other_nodes() {
    let state = CuktaTocExpansionState::default();
    let state = cukta_toc_expansion_with_node_state(&state, "a", true, false);
    assert_eq!(state.collapsed, vec!["a".to_owned()]);
    assert!(!cukta_toc_node_expanded_with_default("a", true, &state));
    assert!(cukta_toc_node_expanded_with_default("b", true, &state));
    assert!(toc_node_expanded("a", true, "klama", &state));
    assert!(!toc_node_expanded("a", true, "  ", &state));
}

#[test]
fn theme_and_script_names_round_trip() {
    for theme in [ThemeMode::Auto, ThemeMode::Day, ThemeMode::Night] {
        assert_eq!(parse_theme(theme_class(theme)), Some(theme));
    }
    for script in [GentufaScript::Latin, GentufaScript::Cyrillic, GentufaScript::Zbalermorna] {
        assert_eq!(parse_script(script_class(script)), Some(script));
    }
    assert_eq!(parse_theme("dark"), Some(ThemeMode::Night));
    assert_eq!(parse_theme("light"), Some(ThemeMode::Day));
    assert_eq!(parse_theme("system"), Some(ThemeMode::Auto));
    assert_eq!(parse_theme("Night"), None);
    assert_eq!(parse_script("greek"), None);
}

#[test]
fn hrefs_split_into_path_query_and_fragment() {
    assert_eq!(
        split_href("/cukta/section/x?q=1#top"),
        ("/cukta/section/x".to_owned(), "q=1".to_owned(), Some("top".to_owned()))
    );
    assert_eq!(split_href("/vlacku"), ("/vlacku".to_owned(), String::new(), None));
    assert_eq!(
        split_href("/a#b?c"),
        ("/a".to_owned(), String::new(), Some("b?c".to_owned()))
    );
    assert_eq!(scroll_storage_key("/cukta?x=1#h"), "jbotci.scroll./cukta?x=1");
    assert_eq!(scroll_storage_key("/cukta#h"), "jbotci.scroll./cukta");
}

#[test]
fn query_keys_are_found_with_or_without_values() {
    assert!(query_has_key("?text=mi&dialect=", "text"));
    assert!(query_has_key("a&text", "text"));
    assert!(query_has_key("??text", "text"));
    assert!(!query_has_key("texts=1", "text"));
    assert!(!query_has_key("", "text"));
}

#[test]
fn base_paths_are_stripped_for_the_client() {
    assert_eq!(strip_base_path_for_client("/jbotci/cukta", "/jbotci/"), Some("/cukta".to_owned()));
    assert_eq!(strip_base_path_for_client("/jbotci", "/jbotci"), Some("/".to_owned()));
    assert_eq!(strip_base_path_for_client("vlacku", "/"), Some("/vlacku".to_owned()));
    assert_eq!(strip_base_path_for_client("/other/cukta", "/jbotci"), None);
    assert_eq!(resolved_href_with_base_path("/jbotci/", "/vlacku"), "/jbotci/vlacku");
    assert_eq!(resolved_href_with_base_path("/jbotci", "vlacku"), "vlacku");
}

#[test]
fn app_routes_and_assets_are_told_apart() {
    assert!(is_app_route_path_for_client("/"));
    assert!(is_app_route_path_for_client("/cukta/section/a/"));
    assert!(is_app_route_path_for_client("/settings"));
    assert!(!is_app_route_path_for_client("/assets/main.css"));
    assert!(has_app_asset_extension("/assets/main.css"));
    assert!(!has_app_asset_extension("/cukta/section"));
    assert!(!has_app_asset_extension("main.css"));
    assert!(!has_app_asset_extension("/a.b/c"));
}

#[test]
fn class_lists_join_enabled_classes() {
    assert_eq!(topbar_link_class(true, false), "app-topbar-link active");
    assert_eq!(topbar_link_class(true, true), "app-topbar-link active is-loading");
    assert_eq!(topbar_link_class(false, false), "app-topbar-link");
    assert_eq!(topbar_activity_class(true), "app-topbar-center app-topbar-activity is-active");
    assert_eq!(class_names("base", &vec![("x", false), ("y", true)]), "base y");
    assert_eq!(
        topbar_header_class(TopbarSettingsLayout::ThemeInline, true),
        "app-topbar spa-topbar topbar-settings-theme-inline topbar-settings-open"
    );
    assert_eq!(
        topbar_header_class(TopbarSettingsLayout::BothInline, true),
        "app-topbar spa-topbar topbar-settings-both-inline"
    );
}

#[test]
fn reference_stems_use_math_italic_letters() {
    assert_eq!(math_alphanumeric_stem("ko'a"), "𝑘𝑜'𝑎");
    assert_eq!(math_alphanumeric_stem("hí"), "ℎ𝑖");
    assert_eq!(math_alphanumeric_stem("Ba"), "𝐵𝑎");
    assert_eq!(math_alphanumeric_stem("i\u{0301}"), "𝑖");
}

#[test]
fn stored_toc_expansion_prefers_opened_nodes() {
    let expanded = vec!["a".to_owned(), String::new(), "b".to_owned()];
    let collapsed = vec!["b".to_owned(), "c".to_owned(), String::new()];
    let state = jbotci::web_state::cukta_toc_expansion_from_stored(&expanded, &collapsed);
    assert_eq!(state.expanded, vec!["a", "b"]);
    assert_eq!(state.collapsed, vec!["c"]);
}
