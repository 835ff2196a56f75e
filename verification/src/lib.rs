//! Seyuna: a design-token configuration engine.
//!
//! The library merges a partial user configuration over complete defaults,
//! and deterministically renders the merged configuration into a CSS
//! stylesheet: theme custom properties, light/dark/system variants, and
//! responsive font-scaling media queries.

pub mod assemble;
pub mod colormap;
pub mod config;
pub mod cssgen;
pub mod decimal;
pub mod error;
pub mod paths;
pub mod ui;
pub mod watch;
