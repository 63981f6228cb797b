//! Inspect and edit the memory of a live process: the region table reader,
//! the pattern scanner and the interactive edit session, with their contracts.
pub mod maps;
pub mod model;
pub mod proc_info;
pub mod search;
pub mod session;
pub mod tasks;
pub mod text;
