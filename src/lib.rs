//! Stable 128-bit type identities, and their composition for generic types.
//!
//! A type carries a seed identity, written as a hyphenated UUID. A generic type
//! folds the identities of its type parameters into that seed, one parameter at
//! a time and in declaration order, so that every instantiation gets an identity
//! of its own.
pub mod engine;
pub mod identity;
pub mod resolver;
