//! Markdown documentation for Cargo workspaces: crate overviews, dependency
//! diagrams and module summaries, computed from plain descriptions of the
//! workspace.
pub mod text;
pub mod workspace;
pub mod markdown;
pub mod docs;
pub mod helper;
pub mod laws;
