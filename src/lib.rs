//! Compiles `match` constructs of a small expression language into chains of
//! conditionals with explicit local bindings.

pub mod language;
pub mod namespace;
pub mod matcher;
pub mod desugar;
pub mod transformer;
pub mod semantics;
pub mod text;
pub mod equality;
pub mod interpreter;
