//! Host-side core for running script snippets in short-lived engine realms:
//! unique context ids, a fixture module resolver, the logging bridge's message
//! policy, a reference-counted context registry, and the state machine that
//! reduces engine values to a canonical string-or-error outcome.

pub mod error;
pub mod ids;
pub mod resolve;
pub mod registry;
pub mod logger;
pub mod module_loader;
pub mod context;
