//! Statically typed configuration snapshots and feature flags.
//!
//! Application code depends on a narrow slice of a larger configuration tree
//! while the whole tree is replaced atomically and shared by reference
//! count.
//!
//! The run-time side:
//!
//! - [`config`]: fetchers that hand out the latest snapshot, and their
//!   combinators.
//! - [`feature_control`]: the write-once registry of the feature tracker,
//!   its registration protocol and its errors.
//! - [`instance`]: snapshots and compact values of a schema that is known
//!   only at run time, with the conversions between them, the projections
//!   and the restart comparison.
//! - [`features`]: the state record of a flat feature schema, with its
//!   defaults, its builder and its restart comparison.
//!
//! The compilers:
//!
//! - [`tokens`]: the tokens of a declaration.
//! - [`grammar`], [`feature_grammar`]: from tokens to a schema.
//! - [`verdicts`]: what is asked of syn, and what follows from its answers.
//! - [`schema`]: the schema model and its validation.
//! - [`compiler`]: the restart comparison and the projections of a valid
//!   schema.
//! - [`emit`], [`emit_features`], [`accessors`]: the generated code, as
//!   text.
//! - [`macros`]: each compiler from end to end, text in and text out.
//! - [`semantics`]: what the compiler's output means for instances.
pub mod accessors;
pub mod compiler;
pub mod config;
pub mod emit;
pub mod emit_features;
pub mod feature_control;
pub mod feature_grammar;
pub mod features;
pub mod grammar;
pub mod instance;
pub mod macros;
pub mod schema;
pub mod semantics;
pub mod text;
pub mod tokens;
pub mod verdicts;
