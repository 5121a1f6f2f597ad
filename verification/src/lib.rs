//! A bit-field container: individually addressable boolean flags over a
//! choice of backing storages (fixed-width unsigned integers, a growable
//! sequence of booleans, or a growable sequence of packed bytes), with one
//! uniform capability set across all of them.

pub mod bitops;
pub mod field;
pub mod fixed;
pub mod growable;
pub mod laws;
pub mod model;
