//! A small line-oriented text search: which lines of an input contain a
//! pattern, with every rule of the search stated as a contract and proved.
//!
//! The library never touches a file or a stream. A caller reads the inputs
//! and hands over what reading gave; the library decides what is kept, what
//! is written and how the run ends.

pub mod config;
pub mod errors;
pub mod options;
pub mod query;
pub mod runner;
pub mod search;
pub mod text;

pub use config::Config;
pub use errors::{AppError, ErrorView, EXIT_IO, EXIT_SUCCESS, EXIT_USAGE};
pub use options::{Arguments, CaseMode, MatchMode, OutputMode};
pub use query::{Query, QueryView};
pub use runner::{inputs, run, Input, Report, Source};
pub use search::{count_search, default_search};
