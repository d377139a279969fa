//! A personal task list behind a desktop front end.
//!
//! The tasks live either in a command-line task manager, which is run for
//! every operation and whose printed listing is read here, or in a JSON file
//! that a store of this library reads and rewrites.
//!
//! - [`task`]: the task record and the entry of a listing.
//! - [`text`]: white space, searching and decimals on character sequences.
//! - [`parser`]: from the entries of a listing to task records.
//! - [`json`]: JSON documents, read and written by `serde_json`.
//! - [`fields`]: the members of a JSON object, as records need them.
//! - [`envelope`]: from the output of the task manager to task records.
//! - [`command`]: the arguments of each command, and what a run amounts to.
//! - [`config`]: the settings, the environment they make, and the paths.
//! - [`store`]: the collection of records, which numbers the new ones.
//! - [`persist`]: the stored forms of the task list and of the settings.

pub mod command;
pub mod config;
pub mod envelope;
pub mod fields;
pub mod json;
pub mod parser;
pub mod persist;
pub mod store;
pub mod task;
pub mod text;
