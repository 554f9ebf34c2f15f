//! Flow submission and execution.

pub mod binding;
pub mod capture;
pub mod connector_call;
pub mod connector_step;
pub mod definition;
pub mod git;
pub mod laws;
pub mod machine;
pub mod operation;
pub mod outcome;
pub mod run_laws;
pub mod submission;
pub mod workspace;
