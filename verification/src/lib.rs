//! Core logic of the kite terminal file manager: file entries, configuration,
//! key bindings, sorting, previews and the application state machine.

pub mod app;
pub mod clock;
pub mod config;
pub mod entry;
pub mod input;
pub mod error;
pub mod event;
pub mod keymap;
pub mod paths;
pub mod plugin;
pub mod preview;
pub mod sort;
pub mod sorting;
pub mod text;
pub mod view;
