//! Prefix-aware resolution of unit identifiers.
//!
//! A [`prefix_parser::PrefixParser`] keeps a registry of base units and of
//! other identifiers in one flat namespace. It decides whether a token such as
//! `kilometer` or `MiB` is a known unit under an SI or IEC prefix, and it
//! refuses every registration that would make a later resolution ambiguous.
//!
//! The contracts of the parser are stated over a model of the registry
//! ([`resolution::Registry`]): [`resolution`] defines what a token means in
//! it, [`registration`] which name stands in the way of a definition, and both
//! prove what follows for every registry and every token.

pub mod diagnostic;
pub mod name_resolution;
pub mod prefix;
pub mod prefix_parser;
pub mod prefix_table;
pub mod registration;
pub mod resolution;
pub mod span;
mod text;
