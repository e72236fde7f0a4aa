//! The workings of rusty-psn, a window that looks up the updates of PlayStation titles by
//! their serials and downloads them. Everything that the window decides is here: what a click
//! or a poll leads to, every message, and every text that is put together from data. Drawing
//! with its fixed labels, lookups, transfers and storage are left to the caller.
//!
//! `state` holds the application. It is moved on by `search_bar`, `results`, `settings_window`
//! and, once per frame, `update`. `effects` states what each of these does to the fields and lists
//! that it is given, and `laws` what holds of all of them together.

// Some names are used in contracts alone.
#![allow(unused_imports)]

pub mod download;
pub mod effects;
pub mod laws;
pub mod paths;
pub mod psn;
pub mod removal;
pub mod results;
pub mod search_bar;
pub mod settings;
pub mod settings_window;
pub mod state;
pub mod text;
pub mod toast;
pub mod update;
