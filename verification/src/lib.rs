//! The decisions of the PAM daemon: which requests it serves and how it answers
//! them, how flows run and end, what resets remove, and what is logged. Nothing
//! here performs I/O; callers do what they are asked for and report what came of
//! it.

pub mod admission;
pub mod answers;
pub mod brief;
pub mod bytes;
pub mod calendar;
pub mod connector_admin;
pub mod connectors;
pub mod digest;
pub mod endpoint;
pub mod error;
pub mod flow;
pub mod identifiers;
pub mod intake;
pub mod leased;
pub mod logging;
pub mod messages;
pub mod model_cell;
pub mod models;
pub mod numbers;
pub mod observe;
pub mod ordered;
pub mod paths;
pub mod policy;
pub mod protocol;
pub mod ptrack;
pub mod reset;
pub mod serve;
pub mod split;
pub mod targets;
pub mod text;
