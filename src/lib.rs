//! Line search: reports the lines of a text that contain a query, exactly or ignoring
//! case, with the first match of each line wrapped in terminal colour codes.
pub mod text;
pub mod scan;
pub mod search;
pub mod laws;
pub mod config;

pub use text::{RED, NORMAL};
pub use search::{search, search_case_insensitive, mark_folded};
pub use scan::{find_first, split_lines};
pub use config::{Config, ConfigError, run_search};
