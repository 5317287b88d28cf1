//! Verified core of the jbotci command-line Lojban toolkit.

pub mod text;
pub mod style;
pub mod cli;
pub mod validate;
pub mod trace;
pub mod vlacku;
pub mod vlacku_render;
pub mod vlatai;
pub mod gimfihi;
pub mod cukta;
pub mod web_state;
pub mod web_route;
pub mod web_text;
pub mod web_href;
pub mod json;
pub mod web_view;
pub mod jvozba_pane;
pub mod embedding;
pub mod benchmark;
pub mod units;
pub mod setup;
pub mod jvozba;
pub mod lsp_tokens;
pub mod runs;
