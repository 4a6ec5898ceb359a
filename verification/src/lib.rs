//! Upgrades the version-pinned package references of Typst documents.
//!
//! A document is a tree of nodes. Each import statement whose source is a
//! string literal of the form `@namespace/name:major.minor.patch` names a
//! package at a fixed version. The library decides, from a catalog of the
//! published versions, which version each reference should move to, and
//! rebuilds the tree with only those literals replaced.

pub mod advisory;
pub mod catalog;
pub mod cmd;
pub mod decimal;
pub mod diffline;
pub mod fixed_point;
pub mod global;
pub mod literal;
pub mod node;
pub mod planner;
pub mod registry;
pub mod rewrite;
pub mod run;
pub mod shape;
pub mod text;
pub mod typstdep;
pub mod upgrade;
pub mod version;
