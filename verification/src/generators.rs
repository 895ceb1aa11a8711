//! The generators that lay out new ground.

pub mod forrest;
