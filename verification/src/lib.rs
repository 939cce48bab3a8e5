//! A small document-library model: a flat, id-indexed collection of
//! documents forming a tree through child-id lists, with a root list,
//! a monotonic id counter and a single optional selection.

pub mod model;
pub mod traversal;
pub mod laws;
