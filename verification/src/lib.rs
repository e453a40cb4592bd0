//! Discovery and synchronisation engine for game shortcuts.
//!
//! The crate finds games below a folder, gives each a stable numeric
//! identifier, tracks the fetches of several discovery sources, merges what they
//! found into a catalog of shortcuts and steps through the artwork stage. All of
//! it works on plain values: the caller reads directories, saves the catalog and
//! downloads images, and hands the outcomes in.

pub mod fetch;
pub mod game_scan;
pub mod ident;
pub mod pipeline;
pub mod progress;
pub mod renames;
pub mod shortcut;
pub mod sync;
pub mod sync_laws;
pub mod text;
pub mod ui_state;
