//! A key-value store kept in a flat `KEY=VALUE` text file.
//!
//! The library works on the lines of such a file as plain values: it classifies a line, looks a
//! key up, lists the pairs under a prefix, and computes the lines to write back after a key was
//! put or deleted. Reading the file and writing it back are left to the caller, who writes step
//! by step as a `Rewrite` says.

pub mod error;
pub mod file;
pub mod laws;
pub mod line;
pub mod pair;
pub mod rewrite;
pub mod store;
pub mod text;

pub use crate::error::EnvError;
pub use crate::file::Content;
pub use crate::file::EnvFile;
pub use crate::line::line_to_env_pair;
pub use crate::line::RawLine;
pub use crate::pair::EnvPair;
pub use crate::rewrite::Rewrite;
pub use crate::rewrite::Stage;
pub use crate::rewrite::Step;
pub use crate::store::delete;
pub use crate::store::get;
pub use crate::store::put;
pub use crate::store::scan;
