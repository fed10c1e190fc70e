//! A small verified core for a localhost browser launcher: port-string
//! validation, a navigation security filter over a configurable policy,
//! URL construction for a chosen port, and user configuration data.

pub mod config;
pub mod host;
pub mod launcher;
pub mod security;
pub mod text;
pub mod timer;
pub mod validator;
