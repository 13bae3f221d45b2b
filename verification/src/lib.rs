//! Test-factory support for a relational data-access layer.
//!
//! A factory is a builder-style helper whose default-valued instance can be
//! field-overridden and then persisted, producing a test record.  The crate
//! has two halves: a code-generation front end that turns an annotated
//! struct declaration into builder and association code, and a small runtime
//! that resolves foreign-key associations and performs insert-returning
//! operations.

pub mod annotation;
pub mod association;
pub mod decl;
pub mod runtime;
pub mod synthesis;
