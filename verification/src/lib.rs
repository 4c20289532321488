//! Verified core of OpenStart: terminal detection, command chaining and
//! terminal-argument construction, version comparison and settings.

pub mod text;
pub mod storage;
pub mod terminal;
pub mod script;
pub mod version;
pub mod updater;
pub mod settings;
pub mod commands;
pub mod cli;
pub mod logger;
