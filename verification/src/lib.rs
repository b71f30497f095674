//! Verified publication, composition, and scheduling decisions of the RunenUI runtime.
//!
//! Every value that the decisions read is held here as plain integers, booleans and
//! vectors; geometry, text shaping, and widget callbacks stay with their callers.

pub mod ids;
pub mod scene;
pub mod composition;
pub mod semantic;
pub mod phases;
pub mod interaction;
pub mod publication_state;
pub mod routed;
pub mod submission;
pub mod scheduler;
pub mod timeline;
pub mod profile;
pub mod ingress;
pub mod semantic_compose;
pub mod requirements;
pub mod semantic_diagnostic;
pub mod framework_service;
