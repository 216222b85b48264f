//! Turns a declarative, ordered mapping of environment-variable definitions
//! into a ready-to-source script for a chosen shell dialect.
//!
//! - [`parser`] cuts one raw value string into typed segments: literal text,
//!   variable references, command substitutions, home-directory lookups.
//! - [`shells`] renders segments and whole set/unset statements with each
//!   dialect's quoting rules, and proves that quoting round-trips.
//! - [`structure`] is the value model: text, lists, path lists, flags, and
//!   per-dialect overrides.
//! - [`convert`] drives the whole conversion, in insertion order.
//! - [`ordered`] is the trusted surface over the ordered map.
//! - [`text`] moves between strings and character vectors.

pub mod convert;
pub mod ordered;
pub mod parser;
pub mod shells;
pub mod structure;
pub mod text;
