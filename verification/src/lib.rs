//! Composite vector indexes over integer vectors: a pipeline of vector
//! transforms in front of an index, and an exact re-ranking stage around one,
//! with typed handles, casts between them and a generic handle, and deep
//! copies.

pub mod error;
pub mod metric;
pub mod select;
pub mod layout;
pub mod native;
pub mod index;
pub mod vector_transform;
