//! Interactive terminal launcher core: a catalog of labeled command
//! templates arranged in columns, a navigation / details / text-edit state
//! machine over that catalog, and a deterministic placeholder-substitution
//! engine that produces the command string to execute.
//!
//! Everything here is pure logic over plain values; terminal rendering,
//! raw input decoding, configuration file I/O and process execution live
//! outside the library and talk to it through `config::Config`,
//! `event::InputEvent`, `event::Effect` and the methods of `ui::App`.

pub mod config;
pub mod laws;
pub mod event;
pub mod template;
pub mod ui;
