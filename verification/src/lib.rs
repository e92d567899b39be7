//! Decisions behind publishing reviewed Git bundles to a single node.

pub mod admission;
pub mod answer_laws;
pub mod bytes;
pub mod commit;
pub mod commit_laws;
pub mod dispatch;
pub mod dispatch_laws;
pub mod ending_laws;
pub mod envelope;
pub mod envelope_exact_laws;
pub mod envelope_laws;
pub mod grammar;
pub mod header_laws;
pub mod json_laws;
pub mod node;
pub mod objects;
pub mod objects_laws;
pub mod oid;
pub mod oid_laws;
pub mod options;
pub mod options_blame_laws;
pub mod options_exact_laws;
pub mod options_laws;
pub mod options_order_laws;
pub mod quarantine;
pub mod rebase;
pub mod rebase_laws;
pub mod rebase_progress_laws;
pub mod rebase_trace_laws;
pub mod receipt;
pub mod receipt_json_laws;
pub mod receipt_laws;
pub mod reference;
pub mod refusal;
pub mod refusal_laws;
pub mod report;
pub mod report_laws;
pub mod sample;
pub mod session;
pub mod session_laws;
pub mod session_trace_laws;
pub mod staging_laws;
pub mod staging_trace_laws;
pub mod text;
pub mod workspace;
pub mod workspace_laws;
pub mod workspace_trace_laws;
