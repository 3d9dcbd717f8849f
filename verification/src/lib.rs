//! Fault-injection logic of a Lambda chaos extension, and the caller-identity
//! report of its companion command-line tool.

pub mod identity;
pub mod routes;
pub mod settings;

pub use identity::{format_caller_identity, OutputType};
pub use routes::AppState;
pub use settings::{bool_from_lowercase, parse_u64, str_to_bool};
