//! Decision logic of an AngularJS dependency-injection annotator.
//!
//! The library reads a small model of JavaScript syntax trees and decides
//! which functions must be annotated with the names of their parameters,
//! which existing annotations must be removed or rebuilt, and where
//! `name.$inject = [...]` statements go.

pub mod text;
pub mod config;
pub mod regexp;
pub mod ast;
pub mod utils;
pub mod matchers;
pub mod nginject;
pub mod transforms;
pub mod positions;
pub mod scan;
pub mod visitor;
pub mod laws;

pub use config::{PluginConfig, RenameEntry};
pub use visitor::NgAnnotateVisitor;
