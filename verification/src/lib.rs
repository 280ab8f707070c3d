//! mybox: the verified core of a modular desktop toolbox — the command model
//! and registry, the event filter and subscriber list, the hotkey action
//! table, the configuration store, the module registry, pixel-format
//! conversions, the screenshot capture session, the tray and window
//! layouts, and the command palette's state machine with its fuzzy command
//! filter.

pub mod capture;
pub mod command;
pub mod config;
pub mod context;
pub mod error;
pub mod event;
pub mod hotkey;
pub mod module;
pub mod palette;
pub mod pixels;
pub mod strings;
pub mod test_module;
pub mod tray;
pub mod window;
