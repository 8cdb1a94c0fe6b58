//! A verified command admission pipeline.
//!
//! An untrusted task request (a command line with `{name}` placeholders and a
//! map of parameters) is sanitized, validated against a deny-list and an
//! allow-list, optionally decoded, and composed into the final command line.
//! The pipeline decides whether, and in what exact textual form, a request
//! may reach a process execution call; the execution itself, and the HTTP
//! layer around it, live outside this library.
pub mod builder;
pub mod chars;
pub mod dispatch;
pub mod registry;
pub mod replace;
pub mod sanitize;
pub mod validate;

pub use builder::{TaskRequest, build_command};
pub use chars::str_eq;
pub use dispatch::{LaunchOutcome, TaskPlan, TaskResponse, completion_response, execution_output, plan_task};
pub use registry::{User, init_users};
pub use sanitize::{Param, ParamMap, sanitize_parameters};
pub use validate::validate_command;
