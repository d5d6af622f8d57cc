//! Shell-style file operations, planned as verified data.
//!
//! The library turns a request (copy, move, delete, rename, or create, with
//! one or more target paths, an optional destination or new name, and an
//! optional flag bitmask) into an explicit sequence of engine steps, and
//! translates `|`-delimited flag-name strings into the engine's bitmask.
//! Executing the steps against the platform's file-operation engine is left
//! to the surrounding program.

pub mod dispatch;
pub mod flags;
pub mod ops;
pub mod plan;
pub mod text;

pub use dispatch::apply_command;
pub use dispatch::plan_command;
pub use flags::translate;
pub use ops::build_plan;
pub use ops::copy_file;
pub use ops::copy_files;
pub use ops::create_file;
pub use ops::create_folder;
pub use ops::delete_file;
pub use ops::delete_files;
pub use ops::move_file;
pub use ops::move_files;
pub use ops::OperationRequest;
pub use ops::rename_file;
pub use ops::rename_files;
pub use plan::Plan;
pub use plan::Step;
pub use plan::Verb;
pub use text::split_on;
pub use text::str_eq;
