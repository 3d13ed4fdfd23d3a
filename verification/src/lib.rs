//! Build orchestration for a multi-source documentation site.
//!
//! One or more trees of content are turned into one site. The library
//! resolves the sources of the configuration to directories, composes the
//! configuration of a child repository with that of its parent, builds the
//! navigation of each source, says in which order the stages of the
//! pipeline run, and tells from a changed path how much of the site is
//! stale.

pub mod builder;
pub mod cache;
pub mod config;
pub mod document;
pub mod format;
pub mod git;
pub mod highlight;
pub mod markdown;
pub mod markdown_laws;
pub mod nav;
pub mod nav_laws;
pub mod paths;
pub mod pipeline;
pub mod render;
pub mod serve;
pub mod source;
pub mod text;
pub mod theme;
pub mod util;
pub mod watch;
