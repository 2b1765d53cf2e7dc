//! A fast, deterministic, non-cryptographic hash accumulator for hash-table keys.
//!
//! The accumulator carries a single machine word of state. Words are folded in
//! by a multiply-rotate-xor step, byte slices are reduced to a sequence of such
//! steps, and a double-width multiplication turns the final state into a
//! 64-bit digest. It is not hardened against adversarially chosen keys.
pub mod word;
pub mod packing;
pub mod hasher;
pub mod laws;
pub mod table;

pub use hasher::ZwoHasher;
pub use table::{HashMap, HashSet};
