//! A host runtime that executes an untrusted planning guest and mediates
//! every side effect it requests: a generation-tagged resource table, a
//! path sandbox, filesystem and process capability providers with
//! deny-by-default stubs for the rest, an action executor that isolates
//! each failure to its own report, and a bounded step orchestrator.

pub mod actions;
pub mod agent;
pub mod backend;
pub mod config;
pub mod deny;
pub mod errs;
pub mod json;
pub mod paths;
pub mod process;
pub mod provider;
pub mod resources;
pub mod runtime;
pub mod table;
pub mod text;
