//! A database-to-application-code generator: a structured description of a
//! SQL catalog and a set of analyzed queries become a tree of source files
//! in a target language, with strongly typed data-access methods and model
//! classes.
//!
//! The core is the intermediate representation and the cross-language type
//! resolution: a canonical type system every catalog type is normalized
//! into, the per-schema model tree and the hierarchical query-namespace
//! tree built from the flat input, the per-target projection of canonical
//! types onto concrete language syntax, and the tree walk that renders one
//! file per module and namespace through an external templating engine.

pub mod context;
pub mod display;
pub mod emit;
pub mod error;
pub mod ir;
pub mod json;
pub mod langtype;
pub mod laws;
pub mod mapping;
pub mod method;
pub mod mock;
pub mod models;
pub mod namespace;
pub mod ordmap;
pub mod overrides;
pub mod render;
pub mod request;
pub mod resolver;
pub mod response;
pub mod strutil;
pub mod table;
pub mod target;
pub mod ty;
pub mod utils;
