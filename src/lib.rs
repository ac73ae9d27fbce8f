//! Schema introspection core: the selection of a dialect's schema reader with
//! the capabilities that its server offers, and an in-memory datamodel with
//! its lookups and the resolution of the two sides of a relation.

pub mod datamodel;
pub mod describer;
pub mod text;
