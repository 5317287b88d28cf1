use jbotci::embedding::{
    embedding_settings_from_fields, embedding_settings_from_json, embedding_status_fields_from_json,
    human_bytes, EmbeddingSettingsState, EmbeddingStatusFields,
};
use jbotci::web_view::semantic_page_flags;

fn empty_fields() -> EmbeddingStatusFields {
    EmbeddingStatusFields {
        status: None,
        detail: None,
        message: None,
        model_bytes: None,
        model_dtype: None,
        model_device: None,
        index_bytes: None,
        progress_label: None,
        progress_percent: None,
    }
}

#[test]
fn sizes_show_bytes_then_mib() {
    assert_eq!(human_bytes(0), "0 B");
    assert_eq!(human_bytes(1024 * 1024 - 1), "1048575 B");
    for bytes in [1024 * 1024, 1_500_000, 123_456_789, u64::MAX] {
        assert_eq!(human_bytes(bytes), format!("{:.1} MiB", bytes as f64 / (1024.0 * 1024.0)));
    }
}

#[test]
fn default_settings_are_being_checked() {
    let state = EmbeddingSettingsState::default();
    assert_eq!(state.status, "unknown");
    assert_eq!(state.detail, "Checking browser embedding storage.");
    assert!(!state.busy);
}

#[test]
fn settings_of_an_empty_record() {
    let state = embedding_settings_from_fields(&empty_fields(), "no store");
    assert_eq!(state.status, "unknown");
    assert_eq!(state.detail, "no store");
    assert_eq!(state.model_size, "unknown");
    assert_eq!(state.index_size, "unknown");
    assert_eq!(state.progress_label, None);
    assert_eq!(state.progress_percent, None);
}

#[test]
fn settings_of_a_full_record() {
    let mut fields = empty_fields();
    fields.status = Some("ready".to_owned());
    fields.message = Some("from message".to_owned());
    fields.model_bytes = Some(2 * 1024 * 1024);
    fields.model_dtype = Some("q8".to_owned());
    fields.model_device = Some("wasm".to_owned());
    fields.index_bytes = Some(512);
    fields.progress_label = Some(String::new());
    fields.progress_percent = Some(250);
    let state = embedding_settings_from_fields(&fields, "fallback");
    assert_eq!(state.status, "ready");
    assert_eq!(state.detail, "from message");
    assert_eq!(state.model_size, "2.0 MiB (q8/wasm)");
    assert_eq!(state.index_size, "512 B");
    assert_eq!(state.progress_label, None);
    assert_eq!(state.progress_percent, Some(100));
    fields.model_bytes = None;
    fields.model_device = None;
    fields.detail = Some("from detail".to_owned());
    fields.progress_label = Some("Downloading".to_owned());
    fields.progress_percent = Some(42);
    let state = embedding_settings_from_fields(&fields, "fallback");
    assert_eq!(state.model_size, "q8");
    assert_eq!(state.detail, "from detail");
    assert_eq!(state.progress_label, Some("Downloading".to_owned()));
    assert_eq!(state.progress_percent, Some(42));
}

#[test]
fn meaning_search_pages_load_until_their_search_is_done() {
    let fresh = semantic_page_flags("klama", false, false);
    assert!(fresh.loading && !fresh.keep_message && !fresh.keep_hits);
    let running = semantic_page_flags("klama", true, true);
    assert!(running.loading && running.keep_message && !running.keep_hits);
    let done = semantic_page_flags("klama", true, false);
    assert!(!done.loading && done.keep_message && done.keep_hits);
    let blank = semantic_page_flags("  ", false, true);
    assert!(!blank.loading && !blank.keep_message && !blank.keep_hits);
}

#[test]
fn settings_from_the_workers_json() {
    let state = embedding_settings_from_json(
        r#"{"status":"ready","message":"m","modelBytes":2097152,"modelDtype":"q8","modelDevice":"wasm","indexBytes":512,"progress":{"label":"Downloading","percent":250}}"#,
        "fallback",
    );
    assert_eq!(state.status, "ready");
    assert_eq!(state.detail, "m");
    assert_eq!(state.model_size, "2.0 MiB (q8/wasm)");
    assert_eq!(state.index_size, "512 B");
    assert_eq!(state.progress_label, Some("Downloading".to_owned()));
    assert_eq!(state.progress_percent, Some(100));
    let broken = embedding_settings_from_json("not json", "fallback");
    assert_eq!(broken.status, "unknown");
    assert_eq!(broken.detail, "fallback");
    assert_eq!(broken.model_size, "unknown");
    let odd = embedding_settings_from_json(r#"{"status":"","detail":7,"modelBytes":-1,"progress":[1]}"#, "f");
    assert_eq!(odd.status, "unknown");
    assert_eq!(odd.detail, "f");
    assert_eq!(odd.model_size, "unknown");
    assert_eq!(odd.progress_label, None);
    let fields = embedding_status_fields_from_json(r#"{"indexBytes":3,"modelDevice":"gpu"}"#);
    assert_eq!(fields.index_bytes, Some(3));
    assert_eq!(fields.model_device, Some("gpu".to_owned()));
    assert_eq!(fields.model_dtype, None);
}

#[test]
fn an_empty_status_is_unknown() {
    let mut fields = empty_fields();
    fields.status = Some(String::new());
    assert_eq!(embedding_settings_from_fields(&fields, "x").status, "unknown");
}
