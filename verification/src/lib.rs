//! A schema-compiled validation and serialization core.
//!
//! Untyped runtime values are checked and coerced against a compiled
//! validator tree ("validation"), and typed values are turned back into
//! plain data ("serialization"), under configurable strictness and with
//! structured, multi-error reporting.

pub mod exactness;
pub mod guard;
pub mod input;
pub mod hash_sets;
pub mod argument_markers;
pub mod arguments;
pub mod datetime_parse;
pub mod definitions;
pub mod errors;
pub mod laws;
pub mod scalars;
pub mod schema;
pub mod serializers;
pub mod temporal;
pub mod validators;
pub mod value;
