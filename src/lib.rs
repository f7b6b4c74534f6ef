//! Filesystem-rooted knowledge index: the Markdown block model and its
//! plain-text projection, gitignore-dialect scope rules, path containment,
//! and the decisions of the rebuild and incremental-update protocols.

pub mod ai;
pub mod block;
pub mod chars;
pub mod document;
pub mod ffi;
pub mod front_matter;
pub mod ignore;
pub mod index;
pub mod location;
pub mod markdown;
pub mod settings;
pub mod text;
pub mod walk;
pub mod watcher;
