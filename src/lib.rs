//! Consolidates dependency declarations that several members of a workspace
//! share into one `[workspace.dependencies]` table.
pub mod classify;
pub mod collect;
pub mod decl;
pub mod reconcile;
pub mod relpath;
pub mod rewrite;
pub mod source;
