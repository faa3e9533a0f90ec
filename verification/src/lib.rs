//! Core of a keyboard-driven selector over a repository / branch / session
//! hierarchy: the navigation model (cursor and multi-select state over a
//! filterable, collapsible tree), the viewport mapper (flattening the tree
//! into lines and keeping the cursor inside a scroll window), and the launch
//! pipeline (remediation of worktree state followed by emission of launch
//! descriptors).  Everything here is pure state-transition logic; reading the
//! tree from storage, probing worktree state and opening the produced
//! descriptors are left to the surrounding application.

pub mod config;
pub mod flatten;
pub mod input;
pub mod launch;
pub mod laws;
pub mod migrate;
pub mod model;
pub mod nav;
pub mod scan;
pub mod text;
