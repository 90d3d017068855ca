//! Integer core of a decoder-only transformer inference engine: tensors and
//! their shapes, the growable key/value cache, the index layout of
//! grouped-query attention, candidate ranking for sampling, weight loading and
//! the bookkeeping of autoregressive generation.
//!
//! Every element type is a parameter: the arithmetic on the elements themselves
//! is left to the caller, and the library moves, places and counts them.

pub mod attention;
pub mod config;
pub mod container;
pub mod generate;
pub mod header;
pub mod kvcache;
pub mod model;
pub mod operators;
pub mod params;
pub mod sampling;
pub mod shape;
pub mod tensor;
