//! Schema synthesis for annotated data declarations.
//!
//! The crate turns a list of captured declarations (records, sum types and
//! service interfaces) into the text of a Cap'n Proto schema. The stages are
//! kept apart so that each has a contract of its own:
//!
//! * [`decl`] holds the declarations as a front end hands them over;
//! * [`registry`] classifies declared type names;
//! * [`naming`] rewrites identifiers into the casing of the schema language;
//! * [`mapper`] turns host types and declarations into schema nodes, which
//!   [`schema`] defines;
//! * [`resolver`] orders records so that each follows what it refers to,
//!   by the depth-first traversal of [`graph`];
//! * [`emitter`] renders the schema text;
//! * [`generate`] runs the stages in order, and [`error`] says how a run
//!   can fail;
//! * [`bindings`] finishes the bindings that the schema compiler writes
//!   from the text.
//!
//! [`hello`] is a worked example, [`text`] and [`try_map`] hold what the
//! other modules share.

pub mod bindings;
pub mod decl;
pub mod emitter;
pub mod error;
pub mod generate;
pub mod graph;
pub mod hello;
pub mod mapper;
pub mod naming;
pub mod registry;
pub mod resolver;
pub mod schema;
pub mod text;
pub mod try_map;
