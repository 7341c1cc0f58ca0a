//! Feature flags: a rule engine that decides whether a named flag is on for a
//! request context, an overlay of per-environment flag definitions on top of
//! the global ones, and the bookkeeping rules of the store that keeps both.
//!
//! - [`models`]: flags, rules, operators and environments, and how a rule is
//!   evaluated against a context.
//! - [`resolver`]: which flags are on for a request, with or without an
//!   environment.
//! - [`repository`]: identifiers, uniqueness of names, and what each answer
//!   of a document store means; [`repository::memory`] keeps documents in
//!   memory under the same rules.
//! - [`services`] and [`resources`]: what is written back and what is
//!   answered, operation by operation, and the cache of enabled flags.
//! - [`json`], [`text`] and [`clock`]: the few places where code of other
//!   crates and of the standard library is called on trust.

pub mod clock;
pub mod json;
pub mod models;
pub mod repository;
pub mod resolver;
pub mod resources;
pub mod services;
pub mod text;
