//! A bill of materials for a book of build instructions.
//!
//! A chapter of the book declares, in a block at its start, which items each
//! of its steps uses and produces: fasteners, electronic parts, custom
//! parts, subassemblies, assemblies, tools and consumables. From these
//! declarations and an inventory this library
//!
//! - merges the references to an item into one ([`merge`]),
//! - lists references as tables ([`render`], [`overview`]),
//! - puts the tables into the text of the chapter ([`rewrite`]), and
//! - adds up what all chapters use ([`bom`], [`aggregate`]) for export
//!   ([`export`]).
//!
//! [`preprocessor`] ties these together for a whole book. Every function has
//! a contract over the views of its arguments, and Verus proves that the
//! function keeps it. Two contracts are taken on trust: that of
//! `String::push` in [`text`], and that of the call into the `regex` crate
//! in [`headings`], which decides which lines are the headings of steps.

pub mod aggregate;
pub mod bom;
pub mod bom_consumables;
pub mod bom_tools;
pub mod declaration;
pub mod export;
pub mod front_matter;
pub mod headings;
pub mod inventory;
pub mod merge;
pub mod names;
pub mod overview;
pub mod preprocessor;
pub mod render;
pub mod rewrite;
pub mod schema;
pub mod text;
