//! Reconciles X11 windows of a nested X server with display-protocol surfaces.

pub mod commit;
pub mod convergence;
pub mod cursor;
pub mod decoration;
pub mod geometry;
pub mod lifecycle;
pub mod output;
pub mod parent;
pub mod reconciler;
pub mod registry;
pub mod state;
pub mod text;
