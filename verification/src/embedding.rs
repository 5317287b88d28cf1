//! What the web settings page shows of the browser's embedding store: its status,
//! the sizes of the model and the index, and the progress of a running setup, read
//! from the status record that the embedding worker sends as JSON.

use crate::json::{
    json_field, json_get, json_text_field, json_text_value, json_u64_field, parse_json,
    text_field, u64_field, JsonView,
};
use crate::text::{decimal, owned, push_decimal, push_str, str_eq};
use crate::units::{format_bytes, mib_spec};
use vstd::prelude::*;

verus! {

/// The embedding store as the settings page shows it.
#[derive(Debug, Clone)]
pub struct EmbeddingSettingsState {
    pub status: String,
    pub detail: String,
    pub model_size: String,
    pub index_size: String,
    pub progress_label: Option<String>,
    pub progress_percent: Option<u8>,
    pub busy: bool,
}

impl Default for EmbeddingSettingsState {
    /// Nothing known yet: the store is being checked.
    fn default() -> (r: Self)
        ensures
            r.status@ == "unknown"@,
            r.detail@ == "Checking browser embedding storage."@,
            r.model_size@ == "unknown"@,
            r.index_size@ == "unknown"@,
            r.progress_label is None,
            r.progress_percent is None,
            !r.busy,
    {
        EmbeddingSettingsState {
            status: owned("unknown"),
            detail: owned("Checking browser embedding storage."),
            model_size: owned("unknown"),
            index_size: owned("unknown"),
            progress_label: None,
            progress_percent: None,
            busy: false,
        }
    }
}

/// A size as the settings page shows it: whole bytes below one MiB, else MiB with one
/// decimal.
pub open spec fn size_text(bytes: nat) -> Seq<char> {
    if bytes < 1024 * 1024 {
        decimal(bytes) + " B"@
    } else {
        mib_spec(bytes)
    }
}

/// A size as the settings page shows it.
pub fn human_bytes(bytes: u64) -> (r: String)
    ensures
        r@ == size_text(bytes as nat),
{
    if bytes < 1024 * 1024 {
        let mut out = String::new();
        push_decimal(&mut out, bytes);
        push_str(&mut out, " B");
        out
    } else {
        format_bytes(bytes)
    }
}

/// The fields of the store's status record, where it has them.
#[derive(Debug, Clone)]
pub struct EmbeddingStatusFields {
    pub status: Option<String>,
    pub detail: Option<String>,
    pub message: Option<String>,
    pub model_bytes: Option<u64>,
    pub model_dtype: Option<String>,
    pub model_device: Option<String>,
    pub index_bytes: Option<u64>,
    pub progress_label: Option<String>,
    pub progress_percent: Option<u64>,
}

/// A text field, or `default` where it is absent.
pub open spec fn text_or(field: Option<String>, default: Seq<char>) -> Seq<char> {
    match field {
        Some(s) => s@,
        None => default,
    }
}

/// The status as the page shows it: `unknown` where the record has none, or an empty
/// one.
pub open spec fn status_text(status: Option<String>) -> Seq<char> {
    match status {
        Some(s) => if s@.len() > 0 {
            s@
        } else {
            "unknown"@
        },
        None => "unknown"@,
    }
}

/// A size field as text, or `unknown` where it is absent.
pub open spec fn size_or_unknown(bytes: Option<u64>) -> Seq<char> {
    match bytes {
        Some(b) => size_text(b as nat),
        None => "unknown"@,
    }
}

/// How the model runs: its data type, with its device after a `/` when that is known.
pub open spec fn model_runtime(dtype: Option<String>, device: Option<String>) -> Option<Seq<char>> {
    match (dtype, device) {
        (Some(t), Some(d)) => Some(t@ + "/"@ + d@),
        (Some(t), None) => Some(t@),
        _ => None,
    }
}

/// The model's line: its size with how it runs in brackets; how it runs alone when the
/// size is unknown.
pub open spec fn model_size_spec(f: EmbeddingStatusFields) -> Seq<char> {
    let size = size_or_unknown(f.model_bytes);
    match model_runtime(f.model_dtype, f.model_device) {
        Some(runtime) => if size != "unknown"@ {
            size + " ("@ + runtime + ")"@
        } else {
            runtime
        },
        None => size,
    }
}

/// The settings page's view of the store from its status record: an absent or empty
/// status is `unknown`; the detail is the record's detail, else its message, else
/// `fallback_detail`; an empty progress label is dropped and the percentage is capped
/// at 100; the page is not busy.
pub open spec fn settings_from_fields_spec(
    f: EmbeddingStatusFields,
    fallback_detail: Seq<char>,
    r: EmbeddingSettingsState,
) -> bool {
    &&& r.status@ == status_text(f.status)
    &&& r.detail@ == match f.detail {
        Some(d) => d@,
        None => text_or(f.message, fallback_detail),
    }
    &&& r.model_size@ == model_size_spec(f)
    &&& r.index_size@ == size_or_unknown(f.index_bytes)
    &&& match f.progress_label {
        Some(l) => if l@.len() > 0 {
            r.progress_label matches Some(t) && t@ == l@
        } else {
            r.progress_label is None
        },
        None => r.progress_label is None,
    }
    &&& r.progress_percent == match f.progress_percent {
        Some(p) => Some(
            (if p < 100 {
                p
            } else {
                100
            }) as u8,
        ),
        None => None,
    }
    &&& !r.busy
}

fn size_or_unknown_exec(bytes: Option<u64>) -> (r: String)
    ensures
        r@ == size_or_unknown(bytes),
{
    match bytes {
        Some(b) => human_bytes(b),
        None => owned("unknown"),
    }
}

fn copy_of(s: &String) -> (r: String)
    ensures
        r@ == s@,
{
    owned(s.as_str())
}

/// The settings page's view of the store from the fields of its status record.
pub fn embedding_settings_from_fields(f: &EmbeddingStatusFields, fallback_detail: &str) -> (r:
    EmbeddingSettingsState)
    ensures
        settings_from_fields_spec(*f, fallback_detail@, r),
        r.status@.len() > 0,
{
    proof {
        reveal_strlit("unknown");
    }
    let status = match &f.status {
        Some(s) => if s.as_str().is_empty() {
            owned("unknown")
        } else {
            copy_of(s)
        },
        None => owned("unknown"),
    };
    let detail = match &f.detail {
        Some(d) => copy_of(d),
        None => match &f.message {
            Some(m) => copy_of(m),
            None => owned(fallback_detail),
        },
    };
    let size = size_or_unknown_exec(f.model_bytes);
    let runtime: Option<String> = match (&f.model_dtype, &f.model_device) {
        (Some(t), Some(d)) => {
            let mut out = copy_of(t);
            push_str(&mut out, "/");
            push_str(&mut out, d.as_str());
            Some(out)
        },
        (Some(t), None) => Some(copy_of(t)),
        _ => None,
    };
    let model_size = match runtime {
        Some(rt) => if !str_eq(size.as_str(), "unknown") {
            let mut out = size;
            push_str(&mut out, " (");
            push_str(&mut out, rt.as_str());
            push_str(&mut out, ")");
            out
        } else {
            rt
        },
        None => size,
    };
    let index_size = size_or_unknown_exec(f.index_bytes);
    let progress_label = match &f.progress_label {
        Some(l) => if l.as_str().is_empty() {
            None
        } else {
            Some(copy_of(l))
        },
        None => None,
    };
    let progress_percent = match f.progress_percent {
        Some(p) => Some(
            if p < 100 {
                p as u8
            } else {
                100u8
            },
        ),
        None => None,
    };
    EmbeddingSettingsState {
        status,
        detail,
        model_size,
        index_size,
        progress_label,
        progress_percent,
        busy: false,
    }
}

/// A text field as it is held: its characters, where it is present.
pub open spec fn text_view(field: Option<String>) -> Option<Seq<char>> {
    match field {
        Some(s) => Some(s@),
        None => None,
    }
}

/// The value that a status text holds: what the JSON parser reads from it, or `null`
/// where it is not JSON.
pub open spec fn status_record(raw: Seq<char>) -> JsonView {
    match json_text_value(raw) {
        Some(v) => v,
        None => JsonView::Null,
    }
}

/// `f` holds the fields of the status record `record`: its string fields `status`,
/// `detail`, `message`, `modelDtype` and `modelDevice`, its integer fields
/// `modelBytes` and `indexBytes`, and the string `label` and integer `percent` of its
/// `progress` record; a field that is absent or of another kind is absent.
pub open spec fn status_fields_read(f: EmbeddingStatusFields, record: JsonView) -> bool {
    let progress = json_field(record, "progress"@);
    &&& text_view(f.status) == json_text_field(record, "status"@)
    &&& text_view(f.detail) == json_text_field(record, "detail"@)
    &&& text_view(f.message) == json_text_field(record, "message"@)
    &&& f.model_bytes == json_u64_field(record, "modelBytes"@)
    &&& text_view(f.model_dtype) == json_text_field(record, "modelDtype"@)
    &&& text_view(f.model_device) == json_text_field(record, "modelDevice"@)
    &&& f.index_bytes == json_u64_field(record, "indexBytes"@)
    &&& text_view(f.progress_label) == match progress {
        Some(p) => json_text_field(p, "label"@),
        None => None,
    }
    &&& f.progress_percent == match progress {
        Some(p) => json_u64_field(p, "percent"@),
        None => None,
    }
}

/// The fields of a status record that the worker sent as JSON text.
pub fn embedding_status_fields_from_json(json: &str) -> (f: EmbeddingStatusFields)
    ensures
        status_fields_read(f, status_record(json@)),
{
    match parse_json(json) {
        Some(value) => {
            let (progress_label, progress_percent) = match json_get(&value, "progress") {
                Some(progress) => (text_field(progress, "label"), u64_field(progress, "percent")),
                None => (None, None),
            };
            EmbeddingStatusFields {
                status: text_field(&value, "status"),
                detail: text_field(&value, "detail"),
                message: text_field(&value, "message"),
                model_bytes: u64_field(&value, "modelBytes"),
                model_dtype: text_field(&value, "modelDtype"),
                model_device: text_field(&value, "modelDevice"),
                index_bytes: u64_field(&value, "indexBytes"),
                progress_label,
                progress_percent,
            }
        },
        None => EmbeddingStatusFields {
            status: None,
            detail: None,
            message: None,
            model_bytes: None,
            model_dtype: None,
            model_device: None,
            index_bytes: None,
            progress_label: None,
            progress_percent: None,
        },
    }
}

/// The settings page's view of the store from the status record that the worker sent
/// as JSON text (a text that is not JSON has no fields); its status is never empty.
pub fn embedding_settings_from_json(json: &str, fallback_detail: &str) -> (r:
    EmbeddingSettingsState)
    ensures
        exists|f: EmbeddingStatusFields|
            status_fields_read(f, status_record(json@)) && settings_from_fields_spec(
                f,
                fallback_detail@,
                r,
            ),
        r.status@.len() > 0,
{
    let fields = embedding_status_fields_from_json(json);
    let r = embedding_settings_from_fields(&fields, fallback_detail);
    assert(status_fields_read(fields, status_record(json@)) && settings_from_fields_spec(
        fields,
        fallback_detail@,
        r,
    ));
    r
}

} // verus!
