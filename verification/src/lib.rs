//! Scriptable SSH through OpenSSH: the decisions and data of the client,
//! with their contracts.

pub mod escape;
pub mod decimal;
pub mod strings;
pub mod builder;
pub mod text;
pub mod ssh_error;
pub mod command;
pub mod session;
pub mod sftp_options;
pub mod sftp_file;
pub mod slices;
