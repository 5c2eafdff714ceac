//! Verified logic behind the Manbo input method shells.

pub mod bundle;
pub mod candidate;
pub mod client;
pub mod cloud;
pub mod diagnostics;
pub mod display;
pub mod dictionaries;
pub mod env_file;
pub mod eval;
pub mod extract;
pub mod indicator;
pub mod logs;
pub mod menu;
pub mod pair;
pub mod paths;
pub mod preedit;
pub mod register;
pub mod repl;
pub mod replay;
pub mod row;
pub mod session;
pub mod settings;
pub mod sync;
pub mod text;
pub mod tuning;
