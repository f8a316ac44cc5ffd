//! Switch between version-control identity profiles.
//!
//! A profile is a `key = value` text file carrying a user name and an email
//! address. The library decides what a command-line argument asks for,
//! extracts the name and email from a profile's lines, and builds every
//! message the tool prints. Copying the chosen file over the active
//! configuration file is left to the caller: the library's contracts speak
//! only of values.

pub mod cmd;
pub mod errors;
pub mod profile;
pub mod text;
