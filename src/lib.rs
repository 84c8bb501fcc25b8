//! Reconstruction of a polynomial from sample points whose ordinates are
//! given as digit strings in an arbitrary radix, using exact arithmetic.
pub mod integer;
pub mod decode;
pub mod rational;
pub mod interp;
pub mod render;
pub mod records;
pub mod pipeline;
