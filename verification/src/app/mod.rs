//! What the program's window shows and keeps.

pub mod gui;
pub mod history;
pub mod i18n;
pub mod log_view;
pub mod logs;
pub mod panels;
pub mod qr;
pub mod scenes;
pub mod settings;
pub mod state;
