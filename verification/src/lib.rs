//! ntx: a terminal with a notes sidebar. Markdown notes hold runnable code
//! blocks; projects hold notes and a session config for the shell. This
//! library holds the note and config formats, the paths of projects, and
//! every decision the application makes on keys, mouse and finished work.
use vstd::prelude::*;

pub mod app;
pub mod config;
pub mod conf_laws;
pub mod format_laws;
pub mod laws;
pub mod notes;
pub mod paths;
pub mod screen;
pub mod session;
pub mod sorting;
pub mod terminal;
pub mod text;
pub mod ui;

verus! {

} // verus!
