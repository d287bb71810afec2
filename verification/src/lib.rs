//! A lightweight LLM loop for software development tasks: the verified core.

use vstd::prelude::*;

pub mod attach;
pub mod attach_laws;
pub mod attached_file;
pub mod body_laws;
pub mod cmd;
pub mod command_laws;
pub mod compat;
pub mod compat_laws;
pub mod compat_provider;
pub mod compat_resilience;
pub mod conversation_laws;
pub mod document_laws;
pub mod file;
pub mod file_pdf;
pub mod float_text;
pub mod gui;
pub mod json;
pub mod json_keys;
pub mod json_model;
pub mod json_text;
pub mod kb;
pub mod kb_defs;
pub mod kb_file_laws;
pub mod kb_files;
pub mod kb_insert_laws;
pub mod kb_schema;
pub mod kb_update_laws;
pub mod kb_write;
pub mod llm_stats;
pub mod model;
pub mod nontext;
pub mod number_laws;
pub mod pdf_body;
pub mod pdf_facts;
pub mod persistence;
pub mod pretty;
pub mod pretty_data;
pub mod pretty_kb;
pub mod pretty_laws;
pub mod reasoning;
pub mod reasoning_laws;
pub mod reflex;
pub mod reflex_laws;
pub mod reflex_literal;
pub mod reflex_literal_filter;
pub mod request_laws;
pub mod resilience_laws;
pub mod screen_laws;
pub mod session;
pub mod session_laws;
pub mod startup;
pub mod startup_laws;
pub mod stats_laws;
pub mod stream_laws;
pub mod text;
pub mod text_laws;
pub mod tool_text_laws;
pub mod turn;

verus! {

} // verus!

