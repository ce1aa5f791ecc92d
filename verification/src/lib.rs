//! The decisions behind a file synchroniser for groups of SSH hosts.
//!
//! Every configured file is hashed here and on each host; where the hashes
//! differ the file is uploaded under a temporary name and then moved into
//! place. This crate holds what is decided and computed on the way. The reads,
//! writes and connections themselves are made by a driver, which asks for the
//! next action, performs it, and reports back.

pub mod channel;
pub mod command;
pub mod config;
pub mod digest;
pub mod directories;
pub mod file_read;
pub mod job;
pub mod path;
pub mod poll;
pub mod remote_shell;
pub mod remote_tree;
pub mod session;
pub mod sftp;
pub mod sftp_upload;
pub mod shell;
pub mod ssh_read;
pub mod ssh_upload;
pub mod sync;
pub mod text;
