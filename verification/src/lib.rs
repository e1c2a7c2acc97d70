//! Lowering of fixed-width big-integer expressions to an experimental
//! vector-instruction set, together with the finite-field library that the
//! pre-assembled vector routines back.
//!
//! The code generation half turns typed expression trees over 256/512/1024-bit
//! unsigned integers into encoded vector instructions: a virtual register
//! pool tracks which vector registers are live, a configuration cache elides
//! redundant width-setup instructions, and an idiom library expands the
//! checked/overflowing/saturating arithmetic forms into fixed instruction
//! sequences.  The field half implements arithmetic modulo the bn128 prime in
//! Montgomery form, on points and extension-field towers built over it.

pub mod curve;
pub mod fp;
pub mod gfp;
pub mod gfp2;
pub mod gfp6;
pub mod inst;
pub mod machine;
pub mod codegen;
pub mod expr;
pub mod pool;
