//! Command model and request planning for a command line companion of Pubky
//! homeservers: configuration parsing, admin API request construction,
//! recovery-file handling and the texts that the commands print.

pub mod text;
pub mod util;
pub mod error;
pub mod keys;
pub mod admin;
pub mod user;
pub mod tools;
pub mod cli;
