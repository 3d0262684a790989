//! Resolution of recipe variants by preference fingerprint.
//!
//! A recipe is either an original or a variant derived from exactly one
//! original. Every recipe carries a fingerprint, the set of preference ids
//! associated with it. A request names a recipe and a list of preferences;
//! it is answered with the recipe of the same family whose fingerprint is
//! exactly the requested one, and where there is none, a new variant is
//! generated and recorded under the family's original.

pub mod generator;
pub mod idset;
pub mod json;
pub mod laws;
pub mod model;
pub mod recipe;
pub mod resolver;
pub mod service;
pub mod store;
pub mod writer;
