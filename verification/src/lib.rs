//! Tracking of file system links: the validation and state machine of one link,
//! the keyed store of link records, and the decisions behind each command.
//!
//! The library never touches the file system. A driver observes the paths,
//! performs the operations that the library asks for, and hands the outcomes back.

pub mod commands;
pub mod database;
pub mod key;
pub mod link;
pub mod paths;
pub mod text;
