//! The object layer: the transforms and indexes that handles stand for.
//!
//! Its operations report a status code, which the handles translate.

pub mod transform;
pub mod store;
pub mod chain;
pub mod model;
pub mod object;
