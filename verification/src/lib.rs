//! Structured error reports: metadata, context, attachments, trace data and
//! cause chains, with compact, pretty and JSON renderings.

pub mod text;
pub mod utils;
pub mod severity;
pub mod error_code;
pub mod config;
pub mod attachment;
pub mod trace;
pub mod cause;
pub mod store;
pub mod source_chain;
pub mod source_view;
pub mod report;
pub mod report_trace;
pub mod accessors;
pub mod global;
pub mod transform;
pub mod ext;
pub mod json;
pub mod render;
pub mod render_json;
pub mod pretty;
pub mod otel;
pub mod ir;
pub mod ir_values;
pub mod trace_emit;
pub mod derive_model;
pub mod laws;
